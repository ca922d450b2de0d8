//! A command-tree compiler: scopes of operations with typed arguments become
//! a parsing schema and a dispatcher that routes a parsed selection to one
//! operation with resolved, defaulted and scope-inherited arguments.
pub mod argument;
pub mod attribute;
pub mod config;
pub mod declare;
pub mod dispatch;
pub mod error;
pub mod node;
pub mod repeat;
pub mod resolve;
pub mod schema;
pub mod selection;
pub mod shape;
pub mod text;
pub mod tusk;

pub use argument::{Argument, ArgumentMultiplicity, ValueHint};
pub use config::{AttrError, AttrToken, Expected, TasksConfig, TusksAttr};
pub use dispatch::{target_result, Dispatch, DispatchError, ScopeValue, Target};
pub use error::SchemaError;
pub use node::{LinkNode, ParameterField, TusksNode, TusksParameters};
pub use repeat::{Repeat, RepeatMax, RepeatMin, RepeatMinMax};
pub use resolve::{accept_converted, ResolveError, ResolvedValue, Supplied};
pub use schema::{ArgDecl, CommandSchema, TuskSchema};
pub use selection::Selection;
pub use shape::{parse_type, ArgShape, FnParam, TypeArg, TypeExpr};
pub use tusk::{result_code, ResultCode, ReturnKind, Tusk};
