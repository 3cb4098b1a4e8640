//! Policy constraints: a named rule script, an enforcement mode, and a
//! match predicate over group-version-kind and namespace.

use vstd::prelude::*;

verus! {

/// The schema identifier of the resource under admission.
pub struct GroupVersionKind {
    pub group: String,
    pub version: String,
    pub kind: String,
}

/// Model of a schema identifier.
pub struct GvkModel {
    pub group: Seq<char>,
    pub version: Seq<char>,
    pub kind: Seq<char>,
}

impl View for GroupVersionKind {
    type V = GvkModel;

    open spec fn view(&self) -> GvkModel {
        GvkModel { group: self.group@, version: self.version@, kind: self.kind@ }
    }
}

/// The identity a constraint is referred to by in events.
pub struct ConstraintRef {
    pub name: String,
}

impl View for ConstraintRef {
    type V = Seq<char>;

    open spec fn view(&self) -> Seq<char> {
        self.name@
    }
}

impl Default for ConstraintRef {
    fn default() -> (r: Self)
        ensures
            r@ == Seq::<char>::empty(),
    {
        ConstraintRef { name: String::new() }
    }
}

impl ConstraintRef {
    /// A copy of the reference.
    pub fn duplicate(&self) -> (r: ConstraintRef)
        ensures
            r@ == self@,
    {
        ConstraintRef { name: self.name.clone() }
    }
}

/// The rule of a constraint: the script source.
pub struct RuleSpec {
    pub python: String,
}

/// One group/kind rule of a match predicate; `"*"` matches anything.
pub struct GroupKindMatcher {
    pub api_group: String,
    pub kind: String,
}

/// The match predicate: a resource matches when some group/kind rule
/// accepts it and, where a namespace list is given, its namespace is
/// listed.
pub struct TargetMatcher {
    pub matches: Vec<GroupKindMatcher>,
    pub namespaces: Option<Vec<String>>,
}

/// A constraint definition: rule script, match predicate, enforcement mode
/// (enforced unless it says otherwise).
pub struct ConstraintSpec {
    pub rule: RuleSpec,
    pub target: TargetMatcher,
    pub enforce: Option<bool>,
}

/// One loaded constraint of the registry.
pub struct ConstraintInfo {
    pub name: String,
    pub ref_info: ConstraintRef,
    pub constraint: ConstraintSpec,
}

/// Model of one constraint.
pub struct ConstraintModel {
    pub name: Seq<char>,
    pub rule: Seq<char>,
    pub enforce: bool,
    pub matchers: Seq<(Seq<char>, Seq<char>)>,
    pub namespaces: Option<Seq<Seq<char>>>,
    pub ref_name: Seq<char>,
}

/// Model of an optional string.
pub open spec fn opt_view(o: Option<String>) -> Option<Seq<char>> {
    match o {
        Option::None => Option::None,
        Option::Some(s) => Option::Some(s@),
    }
}

impl View for ConstraintInfo {
    type V = ConstraintModel;

    open spec fn view(&self) -> ConstraintModel {
        ConstraintModel {
            name: self.name@,
            rule: self.constraint.rule.python@,
            enforce: match self.constraint.enforce {
                Option::None => true,
                Option::Some(b) => b,
            },
            matchers: self.constraint.target.matches@.map_values(
                |m: GroupKindMatcher| (m.api_group@, m.kind@),
            ),
            namespaces: match self.constraint.target.namespaces {
                Option::None => Option::None,
                Option::Some(ns) => Option::Some(ns@.map_values(|s: String| s@)),
            },
            ref_name: self.ref_info@,
        }
    }
}

/// Whether a pattern accepts a value: it is `"*"` or the value itself.
pub open spec fn pat_accepts(pat: Seq<char>, val: Seq<char>) -> bool {
    pat == "*"@ || pat == val
}

/// Whether a constraint's match predicate accepts the resource.
pub open spec fn matches_model(c: ConstraintModel, gvk: GvkModel, ns: Option<Seq<char>>) -> bool {
    &&& exists|i: int|
        0 <= i < c.matchers.len() && pat_accepts(#[trigger] c.matchers[i].0, gvk.group)
            && pat_accepts(c.matchers[i].1, gvk.kind)
    &&& match c.namespaces {
        Option::None => true,
        Option::Some(list) => ns is Some && list.contains(ns->Some_0),
    }
}

impl ConstraintSpec {
    /// A constraint that runs the given script on every resource, enforced.
    pub fn from_python(python: String) -> (r: ConstraintSpec)
        ensures
            r.rule.python@ == python@,
            r.enforce is None,
            r.target.namespaces is None,
            r.target.matches@.len() == 1,
            r.target.matches@[0].api_group@ == "*"@,
            r.target.matches@[0].kind@ == "*"@,
    {
        let star_group = String::from_str("*");
        let star_kind = String::from_str("*");
        let mut matches: Vec<GroupKindMatcher> = Vec::new();
        matches.push(GroupKindMatcher { api_group: star_group, kind: star_kind });
        ConstraintSpec {
            rule: RuleSpec { python },
            target: TargetMatcher { matches, namespaces: Option::None },
            enforce: Option::None,
        }
    }
}

impl ConstraintInfo {
    /// A registry entry for the named constraint.
    pub fn new(name: String, constraint: ConstraintSpec, ref_info: ConstraintRef) -> (r:
        ConstraintInfo)
        ensures
            r.name == name,
            r.constraint == constraint,
            r.ref_info == ref_info,
    {
        ConstraintInfo { name, ref_info, constraint }
    }

    /// Whether this constraint's match predicate accepts the resource.
    pub fn is_match(&self, gvk: &GroupVersionKind, namespace: &Option<String>) -> (r: bool)
        ensures
            r == matches_model(self@, gvk@, opt_view(*namespace)),
    {
        let star = String::from_str("*");
        let ms = &self.constraint.target.matches;
        let mut found = false;
        let mut i: usize = 0;
        while i < ms.len()
            invariant
                i <= ms@.len(),
                self@.matchers == ms@.map_values(|m: GroupKindMatcher| (m.api_group@, m.kind@)),
                star@ == "*"@,
                found ==> exists|k: int|
                    0 <= k < self@.matchers.len() && pat_accepts(
                        #[trigger] self@.matchers[k].0,
                        gvk@.group,
                    ) && pat_accepts(self@.matchers[k].1, gvk@.kind),
                !found ==> forall|k: int|
                    0 <= k < i ==> !(pat_accepts(#[trigger] self@.matchers[k].0, gvk@.group)
                        && pat_accepts(self@.matchers[k].1, gvk@.kind)),
            decreases ms@.len() - i,
        {
            if !found {
                let m = &ms[i];
                let group_ok = m.api_group == star || m.api_group == gvk.group;
                let kind_ok = m.kind == star || m.kind == gvk.kind;
                if group_ok && kind_ok {
                    proof {
                        assert(self@.matchers[i as int] == (ms@[i as int].api_group@,
                        ms@[i as int].kind@));
                        assert(pat_accepts(self@.matchers[i as int].0, gvk@.group));
                        assert(pat_accepts(self@.matchers[i as int].1, gvk@.kind));
                    }
                    found = true;
                }
            }
            i += 1;
        }
        if !found {
            return false;
        }
        match &self.constraint.target.namespaces {
            Option::None => true,
            Option::Some(list) => match namespace {
                Option::None => false,
                Option::Some(ns) => {
                    let ghost lv = self@.namespaces->Some_0;
                    let mut j: usize = 0;
                    while j < list.len()
                        invariant
                            j <= list@.len(),
                            lv == list@.map_values(|s: String| s@),
                            self@.namespaces == Option::Some(lv),
                            opt_view(*namespace) == Option::Some(ns@),
                            exists|k: int|
                                0 <= k < self@.matchers.len() && pat_accepts(
                                    #[trigger] self@.matchers[k].0,
                                    gvk@.group,
                                ) && pat_accepts(self@.matchers[k].1, gvk@.kind),
                            forall|k: int| 0 <= k < j ==> lv[k] != ns@,
                        decreases list@.len() - j,
                    {
                        if list[j] == *ns {
                            proof {
                                assert(lv[j as int] == ns@);
                                assert(lv.contains(ns@));
                            }
                            return true;
                        }
                        j += 1;
                    }
                    proof {
                        assert(forall|k: int| 0 <= k < lv.len() ==> lv[k] != ns@);
                        assert(!lv.contains(ns@));
                    }
                    false
                },
            },
        }
    }
}

} // verus!
