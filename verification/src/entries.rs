//! Entry types of the configuration maps (build arguments, volumes, environment variables).
//!
//! Each entry type is a tri-state: a literal string, a shorthand (inherit from the host, or
//! mount at the same path), or a removal sentinel. In configuration sources the literal is a
//! string, the shorthand is `true` and the removal is `false`.

use vstd::prelude::*;
use crate::layers::Leaf;

verus! {

/// The common shape of all entry types.
pub enum EntryModel {
    /// A literal string (a value, or a host path).
    Literal(Seq<char>),
    /// The shorthand (`true` in configuration sources).
    Shorthand,
    /// The removal sentinel (`false` in configuration sources).
    Removal,
}

/// A build argument entry: a literal value, a host-inherited value, or a removal sentinel.
#[derive(Debug)]
pub enum BuildArgumentEntry {
    /// A literal value to pass as a `--build-arg` to `docker build`.
    Value(String),
    /// Inherit the build argument value from the host environment.
    Inherit,
    /// Removal sentinel.
    Remove,
}

/// A volume entry: an explicit host path, a same-path shorthand, or a removal sentinel.
#[derive(Debug)]
pub enum VolumeEntry {
    /// The host path to mount at the container path key.
    Active(String),
    /// Mount the container path key at the same path on the host.
    SamePath,
    /// Removal sentinel.
    Remove,
}

/// An environment variable entry: a literal value, inheritance from the host, or removal.
#[derive(Debug)]
pub enum EnvironmentVariableEntry {
    /// A literal value to pass into the container.
    Value(String),
    /// Inherit the variable from the host environment.
    Inherit,
    /// Remove / suppress the variable in the container.
    Remove,
}

/// The leaf value that stands for an entry model in a configuration source: the literal as a
/// string, the shorthand as `true`, the removal as `false`.
pub open spec fn entry_leaf_model(m: EntryModel) -> crate::layers::LeafModel {
    match m {
        EntryModel::Literal(s) => crate::layers::LeafModel::Text(s),
        EntryModel::Shorthand => crate::layers::LeafModel::Flag(true),
        EntryModel::Removal => crate::layers::LeafModel::Flag(false),
    }
}

/// What the three entry types have in common.
pub trait MapEntry: Sized {
    /// The shape of this entry.
    spec fn model(&self) -> EntryModel;

    /// A copy of this entry.
    fn duplicate(&self) -> (res: Self)
        ensures
            res == *self,
    ;

    /// Whether this entry is the removal sentinel.
    fn is_removal(&self) -> (res: bool)
        ensures
            res == (self.model() is Removal),
    ;

    /// The configuration-source form of this entry: the literal as a string, the shorthand as
    /// `true`, the removal as `false`.
    fn to_leaf(&self) -> (res: Leaf)
        ensures
            res.model() == entry_leaf_model(self.model()),
    ;

    /// The literal entry holding `s`.
    fn literal(s: String) -> (res: Self)
        ensures
            res.model() == EntryModel::Literal(s@),
    ;

    /// The shorthand entry.
    fn shorthand() -> (res: Self)
        ensures
            res.model() == EntryModel::Shorthand,
    ;

    /// The removal sentinel.
    fn removal() -> (res: Self)
        ensures
            res.model() == EntryModel::Removal,
    ;
}

/// The entry that a configuration-source value stands for: a string is the literal, `true` the
/// shorthand and `false` the removal sentinel. Any other value is not an entry.
pub open spec fn leaf_entry(l: crate::layers::LeafModel) -> Option<EntryModel> {
    match l {
        crate::layers::LeafModel::Text(s) => Some(EntryModel::Literal(s)),
        crate::layers::LeafModel::Flag(b) => Some(if b {
            EntryModel::Shorthand
        } else {
            EntryModel::Removal
        }),
        crate::layers::LeafModel::Opaque(_) => None,
    }
}

/// Read an entry from its configuration-source form (see [`leaf_entry`]).
pub fn entry_from_leaf<E: MapEntry>(leaf: &Leaf) -> (res: Option<E>)
    ensures
        match res {
            Some(e) => leaf_entry(leaf.model()) == Some(e.model()),
            None => leaf_entry(leaf.model()) is None,
        },
{
    match leaf {
        Leaf::Text(s) => Some(E::literal(s.clone())),
        Leaf::Flag(b) => if *b {
            Some(E::shorthand())
        } else {
            Some(E::removal())
        },
        Leaf::Opaque(_) => None,
    }
}

/// Writing an entry in its configuration-source form and reading it back gives the same entry.
pub proof fn law_entry_leaf_round_trip(m: EntryModel)
    ensures
        leaf_entry(entry_leaf_model(m)) == Some(m),
{
}

/// No entry of `s` is a removal sentinel.
pub open spec fn no_removal(s: Seq<(Seq<char>, EntryModel)>) -> bool {
    forall|i: int| 0 <= i < s.len() ==> !(#[trigger] s[i].1 is Removal)
}

/// Every entry of `s` is a literal.
pub open spec fn all_literal(s: Seq<(Seq<char>, EntryModel)>) -> bool {
    forall|i: int| 0 <= i < s.len() ==> #[trigger] s[i].1 is Literal
}

/// No key occurs twice in `s`: the pairs form a map.
pub open spec fn keys_distinct(s: Seq<(Seq<char>, EntryModel)>) -> bool {
    forall|i: int, j: int| 0 <= i < j < s.len() ==> #[trigger] s[i].0 != #[trigger] s[j].0
}

/// Model of an entry map.
pub open spec fn entries_model<E: MapEntry>(v: Seq<(String, E)>) -> Seq<(Seq<char>, EntryModel)> {
    v.map_values(|e: (String, E)| (e.0@, e.1.model()))
}

impl MapEntry for BuildArgumentEntry {
    fn literal(s: String) -> (res: Self) {
        BuildArgumentEntry::Value(s)
    }

    fn shorthand() -> (res: Self) {
        BuildArgumentEntry::Inherit
    }

    fn removal() -> (res: Self) {
        BuildArgumentEntry::Remove
    }

    open spec fn model(&self) -> EntryModel {
        match self {
            BuildArgumentEntry::Value(s) => EntryModel::Literal(s@),
            BuildArgumentEntry::Inherit => EntryModel::Shorthand,
            BuildArgumentEntry::Remove => EntryModel::Removal,
        }
    }

    fn duplicate(&self) -> (res: Self) {
        match self {
            BuildArgumentEntry::Value(s) => BuildArgumentEntry::Value(s.clone()),
            BuildArgumentEntry::Inherit => BuildArgumentEntry::Inherit,
            BuildArgumentEntry::Remove => BuildArgumentEntry::Remove,
        }
    }

    fn is_removal(&self) -> (res: bool) {
        match self {
            BuildArgumentEntry::Remove => true,
            _ => false,
        }
    }

    fn to_leaf(&self) -> (res: Leaf) {
        match self {
            BuildArgumentEntry::Value(s) => Leaf::Text(s.clone()),
            BuildArgumentEntry::Inherit => Leaf::Flag(true),
            BuildArgumentEntry::Remove => Leaf::Flag(false),
        }
    }
}

impl MapEntry for VolumeEntry {
    fn literal(s: String) -> (res: Self) {
        VolumeEntry::Active(s)
    }

    fn shorthand() -> (res: Self) {
        VolumeEntry::SamePath
    }

    fn removal() -> (res: Self) {
        VolumeEntry::Remove
    }

    open spec fn model(&self) -> EntryModel {
        match self {
            VolumeEntry::Active(s) => EntryModel::Literal(s@),
            VolumeEntry::SamePath => EntryModel::Shorthand,
            VolumeEntry::Remove => EntryModel::Removal,
        }
    }

    fn duplicate(&self) -> (res: Self) {
        match self {
            VolumeEntry::Active(s) => VolumeEntry::Active(s.clone()),
            VolumeEntry::SamePath => VolumeEntry::SamePath,
            VolumeEntry::Remove => VolumeEntry::Remove,
        }
    }

    fn is_removal(&self) -> (res: bool) {
        match self {
            VolumeEntry::Remove => true,
            _ => false,
        }
    }

    fn to_leaf(&self) -> (res: Leaf) {
        match self {
            VolumeEntry::Active(s) => Leaf::Text(s.clone()),
            VolumeEntry::SamePath => Leaf::Flag(true),
            VolumeEntry::Remove => Leaf::Flag(false),
        }
    }
}

impl MapEntry for EnvironmentVariableEntry {
    fn literal(s: String) -> (res: Self) {
        EnvironmentVariableEntry::Value(s)
    }

    fn shorthand() -> (res: Self) {
        EnvironmentVariableEntry::Inherit
    }

    fn removal() -> (res: Self) {
        EnvironmentVariableEntry::Remove
    }

    open spec fn model(&self) -> EntryModel {
        match self {
            EnvironmentVariableEntry::Value(s) => EntryModel::Literal(s@),
            EnvironmentVariableEntry::Inherit => EntryModel::Shorthand,
            EnvironmentVariableEntry::Remove => EntryModel::Removal,
        }
    }

    fn duplicate(&self) -> (res: Self) {
        match self {
            EnvironmentVariableEntry::Value(s) => EnvironmentVariableEntry::Value(s.clone()),
            EnvironmentVariableEntry::Inherit => EnvironmentVariableEntry::Inherit,
            EnvironmentVariableEntry::Remove => EnvironmentVariableEntry::Remove,
        }
    }

    fn is_removal(&self) -> (res: bool) {
        match self {
            EnvironmentVariableEntry::Remove => true,
            _ => false,
        }
    }

    fn to_leaf(&self) -> (res: Leaf) {
        match self {
            EnvironmentVariableEntry::Value(s) => Leaf::Text(s.clone()),
            EnvironmentVariableEntry::Inherit => Leaf::Flag(true),
            EnvironmentVariableEntry::Remove => Leaf::Flag(false),
        }
    }
}

} // verus!
