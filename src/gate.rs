//! The run configuration, the protection check, and the per-entry decision
//! gate: classify an entry, report, and rename only when asked to.
use crate::normalize::{candidate, normalize_lowered};
use crate::outside::{
    any_rule_matches, compile_rules, lower_of, lowercase, rules_compile, rules_match,
    set_is_match, set_patterns, texts,
};
use regex::RegexSet;
use vstd::prelude::*;

verus! {

/// The patterns a name is protected by unless told otherwise: names that
/// start with `Cargo`, the name `Makefile`, and names that start with `.`.
pub open spec fn default_rules() -> Seq<Seq<char>> {
    seq![
        seq!['^', 'C', 'a', 'r', 'g', 'o', '.', '*'],
        seq!['^', 'M', 'a', 'k', 'e', 'f', 'i', 'l', 'e', '$'],
        seq!['^', '\\', '.', '.', '*'],
    ]
}

/// The default protection patterns.
pub fn default_rule_list() -> (r: Vec<String>)
    ensures
        texts(r@) == default_rules(),
{
    proof {
        reveal_strlit("^Cargo.*");
        reveal_strlit("^Makefile$");
        reveal_strlit("^\\..*");
    }
    let a = String::from_str("^Cargo.*");
    let b = String::from_str("^Makefile$");
    let c = String::from_str("^\\..*");
    assert(a@ =~= default_rules()[0]);
    assert(b@ =~= default_rules()[1]);
    assert(c@ =~= default_rules()[2]);
    let r = vec![a, b, c];
    assert(texts(r@) =~= default_rules());
    r
}

/// The protection patterns could not be compiled.
#[derive(Debug, Clone, Copy, PartialEq, Eq)]
pub enum RuleError {
    BadPattern,
}

/// The configuration of one run: whether renames are carried out, and the
/// compiled protection patterns. Built once, then only read.
pub struct Config {
    pub enable_rename: bool,
    pub skip_list: RegexSet,
}

/// Whether a name, or `None` for one that could not be read as text, is
/// protected by a compiled pattern set: unreadable names always are.
pub open spec fn protected(set: RegexSet, name: Option<Seq<char>>) -> bool {
    match name {
        None => true,
        Some(n) => set_is_match(set, n),
    }
}

/// What becomes of a directory entry, in model form.
pub enum EntryView {
    Ignored,
    Skipped,
    Unchanged,
    Planned { from: Seq<char>, to: Seq<char>, apply: bool },
    Applied { from: Seq<char>, to: Seq<char> },
    Failed { from: Seq<char>, to: Seq<char> },
}

/// What becomes of a directory entry. `Ignored`, `Skipped` and `Unchanged`
/// are final; `Planned` is reported and, where `apply` holds, renamed, which
/// ends in `Applied` or `Failed`.
#[derive(Debug, PartialEq, Eq)]
pub enum EntryState {
    Ignored,
    Skipped,
    Unchanged,
    Planned { from: String, to: String, apply: bool },
    Applied { from: String, to: String },
    Failed { from: String, to: String },
}

impl View for EntryState {
    type V = EntryView;

    open spec fn view(&self) -> EntryView {
        match self {
            EntryState::Ignored => EntryView::Ignored,
            EntryState::Skipped => EntryView::Skipped,
            EntryState::Unchanged => EntryView::Unchanged,
            EntryState::Planned { from, to, apply } => EntryView::Planned {
                from: from@,
                to: to@,
                apply: *apply,
            },
            EntryState::Applied { from, to } => EntryView::Applied { from: from@, to: to@ },
            EntryState::Failed { from, to } => EntryView::Failed { from: from@, to: to@ },
        }
    }
}

/// A rename is owed: the entry is planned and renames are enabled.
pub open spec fn rename_due(v: EntryView) -> bool {
    match v {
        EntryView::Planned { apply, .. } => apply,
        _ => false,
    }
}

/// The first state of an entry, given whether it is a regular file, its
/// name (`None` when unreadable), whether the patterns protect it, and its
/// lowercase form.
pub open spec fn first_state(
    enable_rename: bool,
    is_file: bool,
    name: Option<Seq<char>>,
    is_protected: bool,
    lowered: Seq<char>,
) -> EntryView {
    if !is_file {
        EntryView::Ignored
    } else {
        match name {
            None => EntryView::Skipped,
            Some(n) => if is_protected {
                EntryView::Skipped
            } else {
                match candidate(n, lowered) {
                    None => EntryView::Unchanged,
                    Some(c) => EntryView::Planned { from: n, to: c, apply: enable_rename },
                }
            },
        }
    }
}

/// The first state of an entry under a run's settings and compiled patterns.
pub open spec fn classified(
    enable_rename: bool,
    set: RegexSet,
    is_file: bool,
    name: Option<Seq<char>>,
) -> EntryView {
    match name {
        None => first_state(enable_rename, is_file, None, true, Seq::<char>::empty()),
        Some(n) => first_state(enable_rename, is_file, name, set_is_match(set, n), lower_of(n)),
    }
}

/// The text an optional `&str` holds.
pub open spec fn opt_str(name: Option<&str>) -> Option<Seq<char>> {
    match name {
        Some(s) => Some(s@),
        None => None,
    }
}

/// The first state of an entry, from whether it is a regular file, its name
/// (`None` when unreadable), whether the patterns protect it, and its
/// lowercase form.
pub fn classify_with(
    enable_rename: bool,
    is_file: bool,
    name: Option<&str>,
    is_protected: bool,
    lowered: &str,
) -> (r: EntryState)
    ensures
        r@ == first_state(enable_rename, is_file, opt_str(name), is_protected, lowered@),
{
    if !is_file {
        return EntryState::Ignored;
    }
    match name {
        None => EntryState::Skipped,
        Some(n) => {
            if is_protected {
                EntryState::Skipped
            } else {
                match normalize_lowered(n, lowered) {
                    None => EntryState::Unchanged,
                    Some(c) => EntryState::Planned {
                        from: String::from_str(n),
                        to: c,
                        apply: enable_rename,
                    },
                }
            }
        },
    }
}

impl Config {
    /// The protection patterns, in order.
    pub open spec fn rules(&self) -> Seq<Seq<char>> {
        set_patterns(self.skip_list)
    }

    /// A configuration with the given protection patterns; fails exactly
    /// when the regex crate refuses them.
    pub fn with_rules(enable_rename: bool, rules: &Vec<String>) -> (r: Result<Config, RuleError>)
        ensures
            r is Ok == rules_compile(texts(rules@)),
            r matches Ok(c) ==> c.enable_rename == enable_rename && c.rules() == texts(rules@),
            r matches Ok(c) ==> forall|h: Seq<char>| #[trigger]
                set_is_match(c.skip_list, h) == rules_match(texts(rules@), h),
            r matches Err(e) ==> e == RuleError::BadPattern,
    {
        match compile_rules(rules) {
            Ok(set) => Ok(Config { enable_rename, skip_list: set }),
            Err(_) => Err(RuleError::BadPattern),
        }
    }

    /// A configuration with the default protection patterns.
    pub fn new(enable_rename: bool) -> (r: Result<Config, RuleError>)
        ensures
            r is Ok == rules_compile(default_rules()),
            r matches Ok(c) ==> c.enable_rename == enable_rename && c.rules() == default_rules(),
            r matches Ok(c) ==> forall|h: Seq<char>| #[trigger]
                set_is_match(c.skip_list, h) == rules_match(default_rules(), h),
    {
        let rules = default_rule_list();
        Config::with_rules(enable_rename, &rules)
    }

    /// Whether `name` must be left alone; `None` stands for a name that
    /// could not be read as text, which is always protected.
    pub fn is_protected(&self, name: Option<&str>) -> (r: bool)
        ensures
            r == protected(self.skip_list, opt_str(name)),
    {
        match name {
            None => true,
            Some(n) => any_rule_matches(&self.skip_list, n),
        }
    }

    /// The first state of a directory entry: whether it is a regular file,
    /// and its name, `None` when it could not be read as text.
    pub fn classify(&self, is_file: bool, name: Option<&str>) -> (r: EntryState)
        ensures
            r@ == classified(self.enable_rename, self.skip_list, is_file, opt_str(name)),
    {
        if !is_file {
            return EntryState::Ignored;
        }
        match name {
            None => EntryState::Skipped,
            Some(n) => {
                let p = self.is_protected(name);
                if p {
                    EntryState::Skipped
                } else {
                    let lowered = lowercase(n);
                    classify_with(self.enable_rename, true, name, false, lowered.as_str())
                }
            },
        }
    }
}

impl EntryState {
    /// Whether the entry is to be renamed now.
    pub fn rename_due(&self) -> (r: bool)
        ensures
            r == rename_due(self@),
    {
        match self {
            EntryState::Planned { apply, .. } => *apply,
            _ => false,
        }
    }

    /// The state after the rename was tried, given whether it succeeded.
    pub fn settle(self, renamed: bool) -> (r: EntryState)
        requires
            rename_due(self@),
        ensures
            self@ matches EntryView::Planned { from, to, .. } && r@ == (if renamed {
                EntryView::Applied { from, to }
            } else {
                EntryView::Failed { from, to }
            }),
    {
        match self {
            EntryState::Planned { from, to, .. } => {
                if renamed {
                    EntryState::Applied { from, to }
                } else {
                    EntryState::Failed { from, to }
                }
            },
            _ => self,
        }
    }
}

/// A name that could not be read as text is protected, and a regular file
/// with such a name is skipped, never planned for a rename.
pub proof fn lemma_unreadable_fails_closed(enable_rename: bool, set: RegexSet)
    ensures
        protected(set, None),
        classified(enable_rename, set, true, None) == EntryView::Skipped,
        !rename_due(classified(enable_rename, set, true, None)),
{
}

/// A name that a protection pattern matches never reaches the rename step,
/// whatever the normalizer would make of it.
pub proof fn lemma_protection_first(
    enable_rename: bool,
    set: RegexSet,
    is_file: bool,
    name: Seq<char>,
)
    requires
        protected(set, Some(name)),
    ensures
        !(classified(enable_rename, set, is_file, Some(name)) is Planned),
        !rename_due(classified(enable_rename, set, is_file, Some(name))),
{
}

/// With renames disabled no entry is ever due for a rename, while every
/// readable, unprotected regular file whose name would change is still
/// planned, with its candidate.
pub proof fn lemma_dry_run_pure(set: RegexSet, is_file: bool, name: Option<Seq<char>>)
    ensures
        !rename_due(classified(false, set, is_file, name)),
        classified(false, set, is_file, name) is Planned <==> (is_file && name is Some
            && !protected(set, name) && crate::normalize::normalized(name->Some_0) is Some),
        classified(false, set, is_file, name) matches EntryView::Planned { from, to, .. } ==> (
        name == Some(from) && crate::normalize::normalized(from) == Some(to)),
{
}

} // verus!
