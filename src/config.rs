//! Options of the `tusks` attribute on a root scope.
use vstd::prelude::*;
use crate::text::same_text;

verus! {

broadcast use vstd::string::to_string_from_display_ensures_for_str;

/// Options that govern code generation for one scope tree.
pub struct TusksAttr {
    pub debug: bool,
    pub root: bool,
    pub derive_debug_for_parameters: bool,
    pub tasks: Option<TasksConfig>,
}

/// Options of the task listing that a root scope may offer.
pub struct TasksConfig {
    pub max_groupsize: usize,
    pub max_depth: usize,
    pub separator: String,
    pub use_colors: bool,
}

impl Default for TasksConfig {
    fn default() -> (r: Self)
        ensures
            r.max_groupsize == 5,
            r.max_depth == 20,
            r.separator@ == seq!['.'],
            r.use_colors,
    {
        let separator = ".".to_string();
        proof {
            reveal_strlit(".");
        }
        TasksConfig { max_groupsize: 5, max_depth: 20, separator, use_colors: true }
    }
}

impl Default for TusksAttr {
    fn default() -> (r: Self)
        ensures
            !r.debug,
            !r.root,
            !r.derive_debug_for_parameters,
            r.tasks.is_none(),
    {
        TusksAttr { debug: false, root: false, derive_debug_for_parameters: false, tasks: None }
    }
}

/// A token of an attribute's argument list.
pub enum AttrToken {
    Ident(String),
    Punct(char),
    Bool(bool),
    /// An integer literal as written, with its value where it fits in
    /// `usize`.
    Int { text: String, value: Option<usize> },
    /// The contents of a string literal.
    Str(String),
    /// Any other literal, as written, without quotes.
    Lit(String),
    /// A parenthesized group.
    Group(Vec<AttrToken>),
}

/// What the grammar expected where it failed.
#[derive(Clone, Copy, Debug, PartialEq, Eq, Structural)]
pub enum Expected {
    Ident,
    Equals,
    Bool,
    Int,
    Str,
    Comma,
    Group,
    Value,
}

/// A fault in the options of the `tusks` attribute. Positions count tokens
/// of the list that holds the fault.
pub enum AttrError {
    UnknownAttribute { name: String },
    UnknownParameter { name: String },
    Expected { position: usize, what: Expected },
    /// An integer literal does not fit in `usize`.
    IntOutOfRange { position: usize },
    /// A fault inside `tasks(...)`.
    InTasks(Box<AttrError>),
    /// A name is given twice in one list.
    Duplicate { name: String },
}

pub enum AttrErrorView {
    UnknownAttribute { name: Seq<char> },
    UnknownParameter { name: Seq<char> },
    Expected { position: int, what: Expected },
    IntOutOfRange { position: int },
    InTasks(Box<AttrErrorView>),
    Duplicate { name: Seq<char> },
}

impl View for AttrError {
    type V = AttrErrorView;

    open spec fn view(&self) -> AttrErrorView
        decreases self,
    {
        match self {
            AttrError::UnknownAttribute { name } => AttrErrorView::UnknownAttribute { name: name@ },
            AttrError::UnknownParameter { name } => AttrErrorView::UnknownParameter { name: name@ },
            AttrError::Expected { position, what } => AttrErrorView::Expected {
                position: *position as int,
                what: *what,
            },
            AttrError::IntOutOfRange { position } => AttrErrorView::IntOutOfRange {
                position: *position as int,
            },
            AttrError::InTasks(e) => AttrErrorView::InTasks(Box::new((**e).view())),
            AttrError::Duplicate { name } => AttrErrorView::Duplicate { name: name@ },
        }
    }
}

pub struct TasksConfigView {
    pub max_groupsize: usize,
    pub max_depth: usize,
    pub separator: Seq<char>,
    pub use_colors: bool,
}

pub struct TusksAttrView {
    pub debug: bool,
    pub root: bool,
    pub derive_debug_for_parameters: bool,
    pub tasks: Option<TasksConfigView>,
}

impl View for TasksConfig {
    type V = TasksConfigView;

    open spec fn view(&self) -> TasksConfigView {
        TasksConfigView {
            max_groupsize: self.max_groupsize,
            max_depth: self.max_depth,
            separator: self.separator@,
            use_colors: self.use_colors,
        }
    }
}

impl View for TusksAttr {
    type V = TusksAttrView;

    open spec fn view(&self) -> TusksAttrView {
        TusksAttrView {
            debug: self.debug,
            root: self.root,
            derive_debug_for_parameters: self.derive_debug_for_parameters,
            tasks: match self.tasks {
                Some(t) => Some(t@),
                None => None,
            },
        }
    }
}

pub open spec fn default_config() -> TasksConfigView {
    TasksConfigView { max_groupsize: 5, max_depth: 20, separator: seq!['.'], use_colors: true }
}

pub open spec fn default_attr() -> TusksAttrView {
    TusksAttrView { debug: false, root: false, derive_debug_for_parameters: false, tasks: None }
}

pub open spec fn is_punct(ts: Seq<AttrToken>, i: int, c: char) -> bool {
    0 <= i < ts.len() && ts[i] is Punct && ts[i]->Punct_0 == c
}

/// The value of one `name = value` entry of `tasks(...)`, at position `j`.
pub open spec fn config_value(ts: Seq<AttrToken>, j: int, name: Seq<char>, acc: TasksConfigView) -> Result<
    TasksConfigView,
    AttrErrorView,
> {
    if name == "max_groupsize"@ || name == "max_depth"@ {
        if 0 <= j < ts.len() && ts[j] is Int {
            match ts[j]->Int_value {
                Some(n) => Ok(
                    if name == "max_groupsize"@ {
                        TasksConfigView { max_groupsize: n, ..acc }
                    } else {
                        TasksConfigView { max_depth: n, ..acc }
                    },
                ),
                None => Err(AttrErrorView::IntOutOfRange { position: j }),
            }
        } else {
            Err(AttrErrorView::Expected { position: j, what: Expected::Int })
        }
    } else if name == "separator"@ {
        if 0 <= j < ts.len() && ts[j] is Str {
            Ok(TasksConfigView { separator: ts[j]->Str_0@, ..acc })
        } else {
            Err(AttrErrorView::Expected { position: j, what: Expected::Str })
        }
    } else {
        Err(AttrErrorView::UnknownParameter { name })
    }
}

/// The grammar of `tasks(...)` from position `i`: entries `name = value`,
/// each but the last followed by a comma; unnamed options keep their
/// defaults.
pub open spec fn config_from(ts: Seq<AttrToken>, i: int, acc: TasksConfigView) -> Result<
    TasksConfigView,
    AttrErrorView,
>
    decreases ts.len() - i,
{
    if i < 0 || i >= ts.len() {
        Ok(acc)
    } else if !(ts[i] is Ident) {
        Err(AttrErrorView::Expected { position: i, what: Expected::Ident })
    } else if !is_punct(ts, i + 1, '=') {
        Err(AttrErrorView::Expected { position: i + 1, what: Expected::Equals })
    } else {
        match config_value(ts, i + 2, ts[i]->Ident_0@, acc) {
            Err(e) => Err(e),
            Ok(next) => if i + 3 >= ts.len() {
                Ok(next)
            } else if is_punct(ts, i + 3, ',') {
                config_from(ts, i + 4, next)
            } else {
                Err(AttrErrorView::Expected { position: i + 3, what: Expected::Comma })
            },
        }
    }
}

pub open spec fn is_flag_name(name: Seq<char>) -> bool {
    name == "debug"@ || name == "root"@ || name == "derive_debug_for_parameters"@
}

pub open spec fn set_flag(acc: TusksAttrView, name: Seq<char>, b: bool) -> TusksAttrView {
    if name == "debug"@ {
        TusksAttrView { debug: b, ..acc }
    } else if name == "root"@ {
        TusksAttrView { root: b, ..acc }
    } else {
        TusksAttrView { derive_debug_for_parameters: b, ..acc }
    }
}

/// Where the entry that starts at `i` ends.
pub open spec fn item_end(ts: Seq<AttrToken>, i: int) -> int {
    if is_flag_name(ts[i]->Ident_0@) {
        if is_punct(ts, i + 1, '=') {
            i + 3
        } else {
            i + 1
        }
    } else {
        i + 2
    }
}

/// The option that the entry at `i` sets: a flag alone means `true`, a flag
/// may take `= true` or `= false`, and `tasks` takes a group.
pub open spec fn attr_item(ts: Seq<AttrToken>, i: int, acc: TusksAttrView) -> Result<
    TusksAttrView,
    AttrErrorView,
> {
    let name = ts[i]->Ident_0@;
    if is_flag_name(name) {
        if is_punct(ts, i + 1, '=') {
            if 0 <= i + 2 < ts.len() && ts[i + 2] is Bool {
                Ok(set_flag(acc, name, ts[i + 2]->Bool_0))
            } else {
                Err(AttrErrorView::Expected { position: i + 2, what: Expected::Bool })
            }
        } else {
            Ok(set_flag(acc, name, true))
        }
    } else if name == "tasks"@ {
        if 0 <= i + 1 < ts.len() && ts[i + 1] is Group {
            match config_from(ts[i + 1]->Group_0@, 0, default_config()) {
                Ok(c) => Ok(TusksAttrView { tasks: Some(c), ..acc }),
                Err(e) => Err(AttrErrorView::InTasks(Box::new(e))),
            }
        } else {
            Err(AttrErrorView::Expected { position: i + 1, what: Expected::Group })
        }
    } else {
        Err(AttrErrorView::UnknownAttribute { name })
    }
}

/// The grammar of the `tusks` attribute's options from position `i`:
/// entries, each but the last followed by a comma.
pub open spec fn attr_from(ts: Seq<AttrToken>, i: int, acc: TusksAttrView) -> Result<
    TusksAttrView,
    AttrErrorView,
>
    decreases ts.len() - i,
{
    if i < 0 || i >= ts.len() {
        Ok(acc)
    } else if !(ts[i] is Ident) {
        Err(AttrErrorView::Expected { position: i, what: Expected::Ident })
    } else {
        match attr_item(ts, i, acc) {
            Err(e) => Err(e),
            Ok(next) => {
                let end = item_end(ts, i);
                if end >= ts.len() {
                    Ok(next)
                } else if is_punct(ts, end, ',') {
                    attr_from(ts, end + 1, next)
                } else {
                    Err(AttrErrorView::Expected { position: end, what: Expected::Comma })
                }
            },
        }
    }
}

fn punct_at(ts: &Vec<AttrToken>, i: usize, c: char) -> (r: bool)
    ensures
        r == is_punct(ts@, i as int, c),
{
    if i < ts.len() {
        match &ts[i] {
            AttrToken::Punct(x) => *x == c,
            _ => false,
        }
    } else {
        false
    }
}

fn apply_config_value(ts: &Vec<AttrToken>, j: usize, name: &String, acc: &mut TasksConfig) -> (r:
    Result<(), AttrError>)
    ensures
        config_value(ts@, j as int, name@, old(acc)@) matches Ok(v) ==> (r is Ok && final(acc)@
            == v),
        config_value(ts@, j as int, name@, old(acc)@) matches Err(e) ==> (r matches Err(x) && x@
            == e),
{
    let groupsize = same_text(name.as_str(), "max_groupsize");
    let depth = same_text(name.as_str(), "max_depth");
    if groupsize || depth {
        if j < ts.len() {
            if let AttrToken::Int { value, .. } = &ts[j] {
                match value {
                    Some(n) => {
                        if groupsize {
                            acc.max_groupsize = *n;
                        } else {
                            acc.max_depth = *n;
                        }
                        return Ok(());
                    },
                    None => {
                        return Err(AttrError::IntOutOfRange { position: j });
                    },
                }
            }
        }
        Err(AttrError::Expected { position: j, what: Expected::Int })
    } else if same_text(name.as_str(), "separator") {
        if j < ts.len() {
            if let AttrToken::Str(v) = &ts[j] {
                acc.separator = v.clone();
                return Ok(());
            }
        }
        Err(AttrError::Expected { position: j, what: Expected::Str })
    } else {
        Err(AttrError::UnknownParameter { name: name.clone() })
    }
}

impl TasksConfig {
    /// Parses the options inside `tasks(...)`.
    pub fn parse(ts: &Vec<AttrToken>) -> (r: Result<TasksConfig, AttrError>)
        ensures
            config_from(ts@, 0, default_config()) matches Ok(c) ==> (r matches Ok(x) && x@ == c),
            config_from(ts@, 0, default_config()) matches Err(e) ==> (r matches Err(x) && x@ == e),
    {
        let mut acc = TasksConfig::default();
        assert(acc@ == default_config());
        let mut i: usize = 0;
        while i < ts.len()
            invariant
                config_from(ts@, 0, default_config()) == config_from(ts@, i as int, acc@),
            decreases ts@.len() - i,
        {
            let name = match &ts[i] {
                AttrToken::Ident(n) => n,
                _ => {
                    return Err(AttrError::Expected { position: i, what: Expected::Ident });
                },
            };
            if !punct_at(ts, i + 1, '=') {
                return Err(AttrError::Expected { position: i + 1, what: Expected::Equals });
            }
            apply_config_value(ts, i + 2, name, &mut acc)?;
            if i + 3 >= ts.len() {
                return Ok(acc);
            }
            if !punct_at(ts, i + 3, ',') {
                return Err(AttrError::Expected { position: i + 3, what: Expected::Comma });
            }
            i = i + 4;
        }
        Ok(acc)
    }
}

fn flag_name(name: &String) -> (r: bool)
    ensures
        r == is_flag_name(name@),
{
    same_text(name.as_str(), "debug") || same_text(name.as_str(), "root") || same_text(
        name.as_str(),
        "derive_debug_for_parameters",
    )
}

fn apply_flag(acc: &mut TusksAttr, name: &String, b: bool)
    requires
        is_flag_name(name@),
    ensures
        final(acc)@ == set_flag(old(acc)@, name@, b),
{
    if same_text(name.as_str(), "debug") {
        acc.debug = b;
    } else if same_text(name.as_str(), "root") {
        acc.root = b;
    } else {
        acc.derive_debug_for_parameters = b;
    }
}

impl TusksAttr {
    /// Parses the options of the `tusks` attribute: `debug`, `root` and
    /// `derive_debug_for_parameters`, alone or with `= true` or `= false`,
    /// and `tasks(...)`, separated by commas.
    pub fn parse(ts: &Vec<AttrToken>) -> (r: Result<TusksAttr, AttrError>)
        ensures
            attr_from(ts@, 0, default_attr()) matches Ok(a) ==> (r matches Ok(x) && x@ == a),
            attr_from(ts@, 0, default_attr()) matches Err(e) ==> (r matches Err(x) && x@ == e),
    {
        let mut acc = TusksAttr::default();
        assert(acc@ == default_attr());
        let mut i: usize = 0;
        while i < ts.len()
            invariant
                attr_from(ts@, 0, default_attr()) == attr_from(ts@, i as int, acc@),
            decreases ts@.len() - i,
        {
            let name = match &ts[i] {
                AttrToken::Ident(n) => n,
                _ => {
                    return Err(AttrError::Expected { position: i, what: Expected::Ident });
                },
            };
            let end: usize;
            if flag_name(name) {
                if punct_at(ts, i + 1, '=') {
                    let b = if i + 2 < ts.len() {
                        match &ts[i + 2] {
                            AttrToken::Bool(b) => *b,
                            _ => {
                                return Err(
                                    AttrError::Expected { position: i + 2, what: Expected::Bool },
                                );
                            },
                        }
                    } else {
                        return Err(AttrError::Expected { position: i + 2, what: Expected::Bool });
                    };
                    apply_flag(&mut acc, name, b);
                    end = i + 3;
                } else {
                    apply_flag(&mut acc, name, true);
                    end = i + 1;
                }
            } else if same_text(name.as_str(), "tasks") {
                let group = if i + 1 < ts.len() {
                    match &ts[i + 1] {
                        AttrToken::Group(g) => g,
                        _ => {
                            return Err(AttrError::Expected { position: i + 1, what: Expected::Group });
                        },
                    }
                } else {
                    return Err(AttrError::Expected { position: i + 1, what: Expected::Group });
                };
                match TasksConfig::parse(group) {
                    Ok(c) => {
                        acc.tasks = Some(c);
                    },
                    Err(e) => {
                        return Err(AttrError::InTasks(Box::new(e)));
                    },
                }
                end = i + 2;
            } else {
                return Err(AttrError::UnknownAttribute { name: name.clone() });
            }
            assert(end as int == item_end(ts@, i as int));
            if end >= ts.len() {
                return Ok(acc);
            }
            if !punct_at(ts, end, ',') {
                return Err(AttrError::Expected { position: end, what: Expected::Comma });
            }
            i = end + 1;
        }
        Ok(acc)
    }
}

} // verus!
