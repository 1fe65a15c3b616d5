//! Typed LDtk custom field values and the lookups shared by everything that
//! carries field instances.

use vstd::prelude::*;

use crate::geometry::{IVec2, ScalarBits};
use crate::keyed_map::KeyedMap;

verus! {

/// The bit pattern of an IEEE-754 double-precision value.
#[derive(Debug, Clone, Copy, PartialEq, Eq, Structural)]
pub struct WideScalarBits {
    pub bits: u64,
}

/// An sRGBA colour as four single-precision bit patterns.
#[derive(Debug, Clone, Copy, PartialEq, Eq, Structural)]
pub struct LdtkColor {
    pub red: ScalarBits,
    pub green: ScalarBits,
    pub blue: ScalarBits,
    pub alpha: ScalarBits,
}

/// Fully qualified reference to another LDtk entity instance.
#[derive(Debug, PartialEq, Eq)]
pub struct LdtkEntityReference {
    /// IID of the referenced entity instance.
    pub entity_iid: String,
    /// IID of the layer that contains the referenced entity.
    pub layer_iid: String,
    /// IID of the level that contains the referenced entity.
    pub level_iid: String,
    /// IID of the world that contains the referenced entity.
    pub world_iid: String,
}

impl Clone for LdtkEntityReference {
    fn clone(&self) -> (r: Self)
        ensures
            r == *self,
    {
        LdtkEntityReference {
            entity_iid: self.entity_iid.clone(),
            layer_iid: self.layer_iid.clone(),
            level_iid: self.level_iid.clone(),
            world_iid: self.world_iid.clone(),
        }
    }
}

impl Default for LdtkEntityReference {
    fn default() -> (r: Self)
        ensures
            r.entity_iid@ == Seq::<char>::empty(),
            r.layer_iid@ == Seq::<char>::empty(),
            r.level_iid@ == Seq::<char>::empty(),
            r.world_iid@ == Seq::<char>::empty(),
    {
        LdtkEntityReference {
            entity_iid: String::new(),
            layer_iid: String::new(),
            level_iid: String::new(),
            world_iid: String::new(),
        }
    }
}

/// A rectangular region inside a tileset.
#[derive(Debug, Clone, Copy, PartialEq, Eq, Structural)]
pub struct LdtkTilesetRect {
    /// UID of the tileset this rectangle refers to.
    pub tileset_uid: i32,
    /// Top-left corner in pixels within the tileset image.
    pub position: IVec2,
    /// Width and height in pixels.
    pub size: IVec2,
}

impl Default for LdtkTilesetRect {
    fn default() -> (r: Self)
        ensures
            r.tileset_uid == 0,
            r.position == IVec2::spec_zero(),
            r.size == IVec2::spec_zero(),
    {
        LdtkTilesetRect { tileset_uid: 0, position: IVec2::zero(), size: IVec2::zero() }
    }
}

/// A numeric field value: integers stay exact, decimals keep their bit pattern.
#[derive(Debug, Clone, Copy, PartialEq, Eq, Structural)]
pub enum LdtkNumber {
    Int(i64),
    Float(WideScalarBits),
}

/// Typed representation of any LDtk field value.
#[derive(Debug, PartialEq)]
pub enum LdtkFieldValue {
    /// A boolean field value.
    Bool(bool),
    /// An integer field value.
    Int(i64),
    /// A floating-point field value, as its bit pattern.
    Float(WideScalarBits),
    /// A string, file-path or enum field value.
    String(String),
    /// A colour field value.
    Color(LdtkColor),
    /// A point field value; `None` when the field is null in the editor.
    Point(Option<IVec2>),
    /// A tile-reference field value; `None` when unset.
    Tile(Option<LdtkTilesetRect>),
    /// A cross-reference to another entity instance.
    EntityRef(LdtkEntityReference),
    /// An array field.
    Array(Vec<LdtkFieldValue>),
    /// A null / unset field value.
    Null,
}

impl LdtkFieldValue {
    /// `self` and `other` hold the same value (arrays compared element-wise).
    pub open spec fn same_as(self, other: LdtkFieldValue) -> bool
        decreases self,
    {
        match (self, other) {
            (LdtkFieldValue::Array(a), LdtkFieldValue::Array(b)) => a@.len() == b@.len() && forall|
                i: int,
            |
                0 <= i < a@.len() ==> (#[trigger] a@[i]).same_as(b@[i]),
            (LdtkFieldValue::Array(_), _) => false,
            _ => self == other,
        }
    }
}

impl Clone for LdtkFieldValue {
    fn clone(&self) -> (r: Self)
        ensures
            r.same_as(*self),
        decreases self,
    {
        match self {
            LdtkFieldValue::Bool(v) => LdtkFieldValue::Bool(*v),
            LdtkFieldValue::Int(v) => LdtkFieldValue::Int(*v),
            LdtkFieldValue::Float(v) => LdtkFieldValue::Float(*v),
            LdtkFieldValue::String(v) => LdtkFieldValue::String(v.clone()),
            LdtkFieldValue::Color(v) => LdtkFieldValue::Color(*v),
            LdtkFieldValue::Point(v) => LdtkFieldValue::Point(*v),
            LdtkFieldValue::Tile(v) => LdtkFieldValue::Tile(*v),
            LdtkFieldValue::EntityRef(v) => LdtkFieldValue::EntityRef(v.clone()),
            LdtkFieldValue::Array(items) => {
                let mut out: Vec<LdtkFieldValue> = Vec::new();
                let mut i: usize = 0;
                while i < items.len()
                    invariant
                        *self is Array,
                        self->Array_0 == *items,
                        i <= items@.len(),
                        out@.len() == i,
                        forall|j: int| 0 <= j < i ==> (#[trigger] out@[j]).same_as(items@[j]),
                    decreases items@.len() - i,
                {
                    proof {
                        assert(decreases_to!(*self => self->Array_0));
                        assert(decreases_to!(*items => items@));
                        assert(decreases_to!(items@ => items@[i as int]));
                        assert(decreases_to!(self => items@[i as int]));
                    }
                    let item = items[i].clone();
                    out.push(item);
                    i = i + 1;
                }
                LdtkFieldValue::Array(out)
            },
            LdtkFieldValue::Null => LdtkFieldValue::Null,
        }
    }
}

impl Default for LdtkFieldValue {
    fn default() -> (v: Self)
        ensures
            v == LdtkFieldValue::Null,
    {
        LdtkFieldValue::Null
    }
}

impl LdtkFieldValue {
    /// The boolean held by a `Bool` value.
    pub open spec fn bool_value(self) -> Option<bool> {
        match self {
            LdtkFieldValue::Bool(v) => Some(v),
            _ => None,
        }
    }

    /// The integer held by an `Int` value.
    pub open spec fn int_value(self) -> Option<i64> {
        match self {
            LdtkFieldValue::Int(v) => Some(v),
            _ => None,
        }
    }

    /// The number held by an `Int` or `Float` value.
    pub open spec fn number_value(self) -> Option<LdtkNumber> {
        match self {
            LdtkFieldValue::Int(v) => Some(LdtkNumber::Int(v)),
            LdtkFieldValue::Float(v) => Some(LdtkNumber::Float(v)),
            _ => None,
        }
    }

    /// The text held by a `String` value.
    pub open spec fn text_value(self) -> Option<Seq<char>> {
        match self {
            LdtkFieldValue::String(v) => Some(v@),
            _ => None,
        }
    }

    /// Returns the inner `bool` of a `Bool` value, otherwise `None`.
    pub fn as_bool(&self) -> (r: Option<bool>)
        ensures
            r == self.bool_value(),
    {
        match self {
            LdtkFieldValue::Bool(value) => Some(*value),
            _ => None,
        }
    }

    /// Returns the inner `i64` of an `Int` value, otherwise `None`.
    pub fn as_i64(&self) -> (r: Option<i64>)
        ensures
            r == self.int_value(),
    {
        match self {
            LdtkFieldValue::Int(value) => Some(*value),
            _ => None,
        }
    }

    /// Returns the number held by an `Int` or a `Float` value, otherwise
    /// `None`; both numeric kinds are accepted.
    pub fn as_number(&self) -> (r: Option<LdtkNumber>)
        ensures
            r == self.number_value(),
    {
        match self {
            LdtkFieldValue::Float(value) => Some(LdtkNumber::Float(*value)),
            LdtkFieldValue::Int(value) => Some(LdtkNumber::Int(*value)),
            _ => None,
        }
    }

    /// Returns the text of a `String` value, otherwise `None`.
    pub fn as_str(&self) -> (r: Option<&str>)
        ensures
            match r {
                Some(t) => self.text_value() == Some(t@),
                None => self.text_value() is None,
            },
    {
        match self {
            LdtkFieldValue::String(value) => Some(value.as_str()),
            _ => None,
        }
    }

    /// Returns `Some(inner)` for a `Point` value (the inner point may itself be
    /// `None`), otherwise `None`.
    pub fn as_point(&self) -> (r: Option<Option<IVec2>>)
        ensures
            r == (match self {
                LdtkFieldValue::Point(p) => Some(*p),
                _ => None,
            }),
    {
        match self {
            LdtkFieldValue::Point(value) => Some(*value),
            _ => None,
        }
    }

    /// Returns `Some(inner)` for a `Tile` value (the inner rectangle may itself
    /// be `None`), otherwise `None`.
    pub fn as_tile(&self) -> (r: Option<Option<&LdtkTilesetRect>>)
        ensures
            r == (match self {
                LdtkFieldValue::Tile(Some(t)) => Some(Some(t)),
                LdtkFieldValue::Tile(None) => Some(None::<&LdtkTilesetRect>),
                _ => None,
            }),
    {
        match self {
            LdtkFieldValue::Tile(value) => match value {
                Some(t) => Some(Some(t)),
                None => Some(None),
            },
            _ => None,
        }
    }
}

/// Field values keyed by field identifier.
pub type LdtkFieldMap = KeyedMap<String, LdtkFieldValue>;

/// What field `id` of map `m` holds, read through `f`.
pub open spec fn lookup_field(m: Map<Seq<char>, LdtkFieldValue>, id: Seq<char>) -> Option<
    LdtkFieldValue,
> {
    if m.contains_key(id) {
        Some(m[id])
    } else {
        None
    }
}

/// Typed accessors for anything that carries LDtk field instances.
pub trait LdtkFieldAccess {
    /// The carried field values, by identifier.
    spec fn field_map(&self) -> Map<Seq<char>, LdtkFieldValue>;

    /// The underlying field-value map.
    fn field_values(&self) -> (m: &LdtkFieldMap)
        ensures
            m@ == self.field_map(),
    ;

    /// Looks up a field by `identifier`, returning `None` when absent.
    fn field(&self, identifier: &str) -> (r: Option<&LdtkFieldValue>)
        ensures
            match r {
                Some(v) => lookup_field(self.field_map(), identifier@) == Some(*v),
                None => lookup_field(self.field_map(), identifier@) is None,
            },
    {
        let key = identifier.to_owned();
        self.field_values().get(&key)
    }

    /// The boolean value of `identifier`, or `None` if absent or of another type.
    fn field_bool(&self, identifier: &str) -> (r: Option<bool>)
        ensures
            r == (match lookup_field(self.field_map(), identifier@) {
                Some(v) => v.bool_value(),
                None => None,
            }),
    {
        match self.field(identifier) {
            Some(v) => v.as_bool(),
            None => None,
        }
    }

    /// The integer value of `identifier`, or `None` if absent or of another type.
    fn field_i64(&self, identifier: &str) -> (r: Option<i64>)
        ensures
            r == (match lookup_field(self.field_map(), identifier@) {
                Some(v) => v.int_value(),
                None => None,
            }),
    {
        match self.field(identifier) {
            Some(v) => v.as_i64(),
            None => None,
        }
    }

    /// The numeric value of `identifier` (int or float fields), or `None` if
    /// absent or incompatible.
    fn field_number(&self, identifier: &str) -> (r: Option<LdtkNumber>)
        ensures
            r == (match lookup_field(self.field_map(), identifier@) {
                Some(v) => v.number_value(),
                None => None,
            }),
    {
        match self.field(identifier) {
            Some(v) => v.as_number(),
            None => None,
        }
    }

    /// The text of `identifier`, or `None` if absent or not a string.
    fn field_str(&self, identifier: &str) -> (r: Option<&str>)
        ensures
            match r {
                Some(t) => lookup_field(self.field_map(), identifier@) is Some && lookup_field(
                    self.field_map(),
                    identifier@,
                )->0.text_value() == Some(t@),
                None => match lookup_field(self.field_map(), identifier@) {
                    Some(v) => v.text_value() is None,
                    None => true,
                },
            },
    {
        match self.field(identifier) {
            Some(v) => v.as_str(),
            None => None,
        }
    }
}

} // verus!
