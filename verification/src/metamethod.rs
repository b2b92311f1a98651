//! Method descriptors and the ordered access levels that gate them.

use vstd::prelude::*;

verus! {

/// Access level carried by a request and declared as the minimum of a method.
/// The variants are strictly ordered from weakest to strongest.
#[derive(Clone, Copy, Debug, PartialEq, Eq, Structural)]
pub enum AccessLevel {
    Browse,
    Read,
    Write,
    Command,
    Service,
    Admin,
    Superuser,
}

impl AccessLevel {
    /// Rank of the level in the order `Browse < Read < ... < Superuser`.
    pub open spec fn rank(self) -> int {
        match self {
            AccessLevel::Browse => 0,
            AccessLevel::Read => 1,
            AccessLevel::Write => 2,
            AccessLevel::Command => 3,
            AccessLevel::Service => 4,
            AccessLevel::Admin => 5,
            AccessLevel::Superuser => 6,
        }
    }

    /// Executable rank, agreeing with `rank`.
    pub fn ord(self) -> (r: u8)
        ensures
            r as int == self.rank(),
    {
        match self {
            AccessLevel::Browse => 0,
            AccessLevel::Read => 1,
            AccessLevel::Write => 2,
            AccessLevel::Command => 3,
            AccessLevel::Service => 4,
            AccessLevel::Admin => 5,
            AccessLevel::Superuser => 6,
        }
    }

    /// `self` grants at least the level `other`.
    pub fn satisfies(self, other: AccessLevel) -> (r: bool)
        ensures
            r == (self.rank() >= other.rank()),
    {
        self.ord() >= other.ord()
    }
}

/// Method flag: no special role.
pub const FLAG_NONE: u32 = 0;

/// Method flag: the method is a getter.
pub const FLAG_IS_GETTER: u32 = 2;

/// Method flag: the method is a setter.
pub const FLAG_IS_SETTER: u32 = 4;

/// Method flag: the name denotes a signal.
pub const FLAG_IS_SIGNAL: u32 = 8;

/// Static descriptor of one method of a node.
#[derive(Debug, PartialEq)]
pub struct MetaMethod {
    pub name: String,
    pub flags: u32,
    pub access: AccessLevel,
    pub param: String,
    pub result: String,
    pub description: String,
}

/// Mathematical image of a `MetaMethod`.
pub struct MetaMethodView {
    pub name: Seq<char>,
    pub flags: u32,
    pub access: AccessLevel,
    pub param: Seq<char>,
    pub result: Seq<char>,
    pub description: Seq<char>,
}

impl View for MetaMethod {
    type V = MetaMethodView;

    open spec fn view(&self) -> MetaMethodView {
        MetaMethodView {
            name: self.name@,
            flags: self.flags,
            access: self.access,
            param: self.param@,
            result: self.result@,
            description: self.description@,
        }
    }
}

impl DeepView for MetaMethod {
    type V = MetaMethodView;

    open spec fn deep_view(&self) -> MetaMethodView {
        self.view()
    }
}

impl Clone for MetaMethod {
    fn clone(&self) -> (r: Self)
        ensures
            r@ == self@,
    {
        MetaMethod {
            name: self.name.clone(),
            flags: self.flags,
            access: self.access,
            param: self.param.clone(),
            result: self.result.clone(),
            description: self.description.clone(),
        }
    }
}

impl MetaMethod {
    /// A getter descriptor with the given name, open to `Browse` access.
    pub fn getter(name: String) -> (r: MetaMethod)
        ensures
            r@ == (MetaMethodView {
                name: name@,
                flags: FLAG_IS_GETTER,
                access: AccessLevel::Browse,
                param: Seq::empty(),
                result: Seq::empty(),
                description: Seq::empty(),
            }),
    {
        MetaMethod {
            name,
            flags: FLAG_IS_GETTER,
            access: AccessLevel::Browse,
            param: String::new(),
            result: String::new(),
            description: String::new(),
        }
    }

    /// A plain method descriptor with the given name and minimum access level.
    pub fn plain(name: String, access: AccessLevel) -> (r: MetaMethod)
        ensures
            r@ == (MetaMethodView {
                name: name@,
                flags: FLAG_NONE,
                access,
                param: Seq::empty(),
                result: Seq::empty(),
                description: Seq::empty(),
            }),
    {
        MetaMethod {
            name,
            flags: FLAG_NONE,
            access,
            param: String::new(),
            result: String::new(),
            description: String::new(),
        }
    }
}

/// The names of a sequence of method descriptors.
pub open spec fn method_names(ms: Seq<MetaMethodView>) -> Seq<Seq<char>> {
    ms.map_values(|m: MetaMethodView| m.name)
}

/// Whether some descriptor in `ms` is named `name`.
pub open spec fn has_method(ms: Seq<MetaMethodView>, name: Seq<char>) -> bool {
    exists|i: int| 0 <= i < ms.len() && ms[i].name == name
}

/// Index `i` holds the first descriptor named `name`.
pub open spec fn is_first_named(ms: Seq<MetaMethodView>, name: Seq<char>, i: int) -> bool {
    &&& 0 <= i < ms.len()
    &&& ms[i].name == name
    &&& forall|j: int| 0 <= j < i ==> ms[j].name != name
}

/// The index of the first descriptor named `name`.
pub open spec fn first_named_idx(ms: Seq<MetaMethodView>, name: Seq<char>) -> int {
    choose|i: int| is_first_named(ms, name, i)
}

/// The first descriptor in `ms` named `name`.
pub open spec fn method_named(ms: Seq<MetaMethodView>, name: Seq<char>) -> MetaMethodView {
    ms[first_named_idx(ms, name)]
}

/// Two first-named indices agree.
pub proof fn lemma_first_named_unique(ms: Seq<MetaMethodView>, name: Seq<char>, i1: int, i2: int)
    requires
        is_first_named(ms, name, i1),
        is_first_named(ms, name, i2),
    ensures
        i1 == i2,
{
}

/// Finds the first descriptor with the given name.
pub fn find_method<'a>(ms: &'a Vec<MetaMethod>, name: &str) -> (r: Option<&'a MetaMethod>)
    ensures
        match r {
            Some(m) => has_method(ms.deep_view(), name@) && m@ == method_named(
                ms.deep_view(),
                name@,
            ),
            None => !has_method(ms.deep_view(), name@),
        },
{
    let ghost msv = ms.deep_view();
    for i in 0..ms.len()
        invariant
            msv == ms.deep_view(),
            forall|j: int| 0 <= j < i ==> msv[j].name != name@,
    {
        assert(ms[i as int]@ == msv[i as int]);
        if crate::subscriptions::str_eq(ms[i].name.as_str(), name) {
            proof {
                assert(is_first_named(msv, name@, i as int));
                lemma_first_named_unique(msv, name@, i as int, first_named_idx(msv, name@));
            }
            return Some(&ms[i]);
        }
    }
    None
}

} // verus!
