//! The column-type tree: tags, parameterized types, nodes and builders.
use vstd::prelude::*;
use crate::error::Error;

verus! {

/// The wire-level category of a column.
///
/// Two columns of kind `List` share this tag even when their element types
/// differ; the fully parameterized description is [`ThinType`]. The wire
/// enumeration of the format fixes one ordinal per kind, exposed by
/// [`TypeKind::ordinal`]. (The kind the format calls MAP is named `Mapping`
/// here, since `Map` is taken by the verifier's mathematical maps.)
#[derive(Clone, Copy, Debug, PartialEq, Eq, Structural)]
pub enum TypeKind {
    Boolean,
    Byte,
    Short,
    Int,
    Long,
    Float,
    Double,
    String,
    Binary,
    Timestamp,
    List,
    Mapping,
    Struct,
    Union,
    Decimal,
    Date,
    Varchar,
    Char,
    TimestampInstant,
}

/// The ordinal the wire enumeration assigns to each kind. These values are
/// persisted in files and must never be renumbered.
pub open spec fn kind_ordinal(k: TypeKind) -> u32 {
    match k {
        TypeKind::Boolean => 0,
        TypeKind::Byte => 1,
        TypeKind::Short => 2,
        TypeKind::Int => 3,
        TypeKind::Long => 4,
        TypeKind::Float => 5,
        TypeKind::Double => 6,
        TypeKind::String => 7,
        TypeKind::Binary => 8,
        TypeKind::Timestamp => 9,
        TypeKind::List => 10,
        TypeKind::Mapping => 11,
        TypeKind::Struct => 12,
        TypeKind::Union => 13,
        TypeKind::Decimal => 14,
        TypeKind::Date => 15,
        TypeKind::Varchar => 16,
        TypeKind::Char => 17,
        TypeKind::TimestampInstant => 18,
    }
}

/// A kind is primitive when a [`ThinType`] of that kind is fully determined
/// by the kind alone: no children, no precision or scale, no length bound.
pub open spec fn is_primitive_kind(k: TypeKind) -> bool {
    !(k == TypeKind::List || k == TypeKind::Mapping || k == TypeKind::Struct
        || k == TypeKind::Union || k == TypeKind::Decimal || k == TypeKind::Varchar
        || k == TypeKind::Char)
}

/// A kind that carries a maximum-length bound.
pub open spec fn is_char_kind(k: TypeKind) -> bool {
    k == TypeKind::Char || k == TypeKind::Varchar
}

impl TypeKind {
    /// Whether the kind needs no payload beyond the tag itself.
    pub fn is_primitive(&self) -> (r: bool)
        ensures
            r == is_primitive_kind(*self),
    {
        !matches!(
            self,
            TypeKind::List
                | TypeKind::Mapping
                | TypeKind::Struct
                | TypeKind::Union
                | TypeKind::Decimal
                | TypeKind::Varchar
                | TypeKind::Char
        )
    }

    /// Whether the kind is `Char` or `Varchar`.
    pub fn is_char(&self) -> (r: bool)
        ensures
            r == is_char_kind(*self),
    {
        matches!(self, TypeKind::Char | TypeKind::Varchar)
    }

    /// The stable wire ordinal of this kind.
    pub fn ordinal(&self) -> (r: u32)
        ensures
            r == kind_ordinal(*self),
    {
        match self {
            TypeKind::Boolean => 0,
            TypeKind::Byte => 1,
            TypeKind::Short => 2,
            TypeKind::Int => 3,
            TypeKind::Long => 4,
            TypeKind::Float => 5,
            TypeKind::Double => 6,
            TypeKind::String => 7,
            TypeKind::Binary => 8,
            TypeKind::Timestamp => 9,
            TypeKind::List => 10,
            TypeKind::Mapping => 11,
            TypeKind::Struct => 12,
            TypeKind::Union => 13,
            TypeKind::Decimal => 14,
            TypeKind::Date => 15,
            TypeKind::Varchar => 16,
            TypeKind::Char => 17,
            TypeKind::TimestampInstant => 18,
        }
    }

    /// The tag of a parameterized type; payload is never inspected.
    pub fn from(value: ThinType) -> (r: TypeKind)
        ensures
            r == kind_of(value),
    {
        value.get_kind()
    }
}

/// The fully parameterized description of one column's type.
///
/// Scalar variants carry nothing; `List`, `Mapping`, `Struct` and `Union`
/// carry child types; `Decimal` carries precision and scale; `Char` and
/// `Varchar` carry a maximum length.
#[derive(Debug, PartialEq, Eq)]
pub enum ThinType {
    Boolean,
    Byte,
    Short,
    Int,
    Long,
    Float,
    Double,
    String,
    Binary,
    Timestamp,
    List(Box<DataType>),
    Mapping(Box<DataType>, Box<DataType>),
    Struct(Vec<Field>),
    Union(Vec<Box<DataType>>),
    Decimal(u64, u64),
    Date,
    Varchar(u64),
    Char(u64),
    TimestampInstant,
}

/// The tag of a parameterized type: total, and independent of the payload.
pub open spec fn kind_of(t: ThinType) -> TypeKind {
    match t {
        ThinType::Boolean => TypeKind::Boolean,
        ThinType::Byte => TypeKind::Byte,
        ThinType::Short => TypeKind::Short,
        ThinType::Int => TypeKind::Int,
        ThinType::Long => TypeKind::Long,
        ThinType::Float => TypeKind::Float,
        ThinType::Double => TypeKind::Double,
        ThinType::String => TypeKind::String,
        ThinType::Binary => TypeKind::Binary,
        ThinType::Timestamp => TypeKind::Timestamp,
        ThinType::List(_) => TypeKind::List,
        ThinType::Mapping(_, _) => TypeKind::Mapping,
        ThinType::Struct(_) => TypeKind::Struct,
        ThinType::Union(_) => TypeKind::Union,
        ThinType::Decimal(_, _) => TypeKind::Decimal,
        ThinType::Date => TypeKind::Date,
        ThinType::Varchar(_) => TypeKind::Varchar,
        ThinType::Char(_) => TypeKind::Char,
        ThinType::TimestampInstant => TypeKind::TimestampInstant,
    }
}

/// The parameterized type a primitive kind determines, and nothing for the
/// seven kinds that need caller-supplied payload.
pub open spec fn primitive_thin(k: TypeKind) -> Option<ThinType> {
    match k {
        TypeKind::Boolean => Some(ThinType::Boolean),
        TypeKind::Byte => Some(ThinType::Byte),
        TypeKind::Short => Some(ThinType::Short),
        TypeKind::Int => Some(ThinType::Int),
        TypeKind::Long => Some(ThinType::Long),
        TypeKind::Float => Some(ThinType::Float),
        TypeKind::Double => Some(ThinType::Double),
        TypeKind::String => Some(ThinType::String),
        TypeKind::Binary => Some(ThinType::Binary),
        TypeKind::Timestamp => Some(ThinType::Timestamp),
        TypeKind::Date => Some(ThinType::Date),
        TypeKind::TimestampInstant => Some(ThinType::TimestampInstant),
        _ => None,
    }
}

/// A primitive kind round-trips through its parameterized type: the kinds
/// that determine a [`ThinType`] are exactly the primitive ones, and the
/// determined type projects back to the kind it came from.
pub proof fn lemma_primitive_kind_round_trip(k: TypeKind)
    ensures
        is_primitive_kind(k) <==> primitive_thin(k) is Some,
        primitive_thin(k) matches Some(t) ==> kind_of(t) == k,
{
}

impl ThinType {
    /// The tag of this type; `List(Int)` and `List(Long)` share it.
    pub fn get_kind(&self) -> (r: TypeKind)
        ensures
            r == kind_of(*self),
    {
        match self {
            ThinType::Boolean => TypeKind::Boolean,
            ThinType::Byte => TypeKind::Byte,
            ThinType::Short => TypeKind::Short,
            ThinType::Int => TypeKind::Int,
            ThinType::Long => TypeKind::Long,
            ThinType::Float => TypeKind::Float,
            ThinType::Double => TypeKind::Double,
            ThinType::String => TypeKind::String,
            ThinType::Binary => TypeKind::Binary,
            ThinType::Timestamp => TypeKind::Timestamp,
            ThinType::List(_) => TypeKind::List,
            ThinType::Mapping(_, _) => TypeKind::Mapping,
            ThinType::Struct(_) => TypeKind::Struct,
            ThinType::Union(_) => TypeKind::Union,
            ThinType::Decimal(_, _) => TypeKind::Decimal,
            ThinType::Date => TypeKind::Date,
            ThinType::Varchar(_) => TypeKind::Varchar,
            ThinType::Char(_) => TypeKind::Char,
            ThinType::TimestampInstant => TypeKind::TimestampInstant,
        }
    }

    /// The parameterized type a kind determines. Succeeds exactly for the
    /// primitive kinds; the others need payload no tag can synthesize.
    pub fn try_from(value: TypeKind) -> (r: Result<ThinType, Error>)
        ensures
            match r {
                Ok(t) => primitive_thin(value) == Some(t),
                Err(e) => primitive_thin(value) is None && e matches Error::DataTypeError(_),
            },
    {
        match value {
            TypeKind::Boolean => Ok(ThinType::Boolean),
            TypeKind::Byte => Ok(ThinType::Byte),
            TypeKind::Short => Ok(ThinType::Short),
            TypeKind::Int => Ok(ThinType::Int),
            TypeKind::Long => Ok(ThinType::Long),
            TypeKind::Float => Ok(ThinType::Float),
            TypeKind::Double => Ok(ThinType::Double),
            TypeKind::String => Ok(ThinType::String),
            TypeKind::Binary => Ok(ThinType::Binary),
            TypeKind::Timestamp => Ok(ThinType::Timestamp),
            TypeKind::Date => Ok(ThinType::Date),
            TypeKind::TimestampInstant => Ok(ThinType::TimestampInstant),
            _ => Err(Error::DataTypeError(
                "Can not convert a non-primitive TypeKind to a ThinType".to_string(),
            )),
        }
    }
}

/// A named child slot of a `Struct` type.
#[derive(Debug, PartialEq, Eq)]
pub struct Field {
    pub name: String,
    pub datatype: Box<DataType>,
}

/// One node of the schema tree.
///
/// `column_id` and `maximum_column_id` stay `None` until the numbering pass
/// has run; `None` is a real state, distinct from every valid id.
/// `subtype_count` denormalizes the node's arity for constant-time checks
/// and must always equal the arity its `thin_type` defines.
#[derive(Debug, PartialEq, Eq)]
pub struct DataType {
    pub thin_type: ThinType,
    pub column_id: Option<usize>,
    pub maximum_column_id: Option<usize>,
    pub subtype_count: usize,
}

/// The number of direct children a parameterized type defines.
pub open spec fn arity_of(t: ThinType) -> nat {
    match t {
        ThinType::List(_) => 1,
        ThinType::Mapping(_, _) => 2,
        ThinType::Struct(fs) => fs@.len(),
        ThinType::Union(cs) => cs@.len(),
        _ => 0,
    }
}

/// A freshly built, unassigned node around the given type.
pub open spec fn fresh_node(d: DataType, t: ThinType) -> bool {
    &&& d.thin_type == t
    &&& d.column_id is None
    &&& d.maximum_column_id is None
    &&& d.subtype_count == arity_of(t)
}

impl DataType {
    /// The cached arity agrees with the shape of the node's type.
    pub open spec fn count_ok(self) -> bool {
        self.subtype_count == arity_of(self.thin_type)
    }

    /// The direct child a valid index selects, if the shape has one.
    pub open spec fn subtype_spec(self, i: int) -> Option<DataType> {
        match self.thin_type {
            ThinType::List(e) => if i == 0 {
                Some(*e)
            } else {
                None
            },
            ThinType::Mapping(k, v) => if i == 0 {
                Some(*k)
            } else if i == 1 {
                Some(*v)
            } else {
                None
            },
            ThinType::Struct(fs) => if 0 <= i < fs@.len() {
                Some(*fs@[i].datatype)
            } else {
                None
            },
            ThinType::Union(cs) => if 0 <= i < cs@.len() {
                Some(*cs@[i])
            } else {
                None
            },
            _ => None,
        }
    }

    /// The name a valid index selects, on a `Struct` node only.
    pub open spec fn field_name_spec(self, i: int) -> Option<Seq<char>> {
        match self.thin_type {
            ThinType::Struct(fs) => if 0 <= i < fs@.len() {
                Some(fs@[i].name@)
            } else {
                None
            },
            _ => None,
        }
    }

    /// A fresh, unassigned node around `thin_type`, with its arity cached.
    pub fn new(thin_type: ThinType) -> (r: DataType)
        ensures
            fresh_node(r, thin_type),
    {
        let subtype_count: usize = match &thin_type {
            ThinType::List(_) => 1,
            ThinType::Mapping(_, _) => 2,
            ThinType::Struct(fs) => fs.len(),
            ThinType::Union(cs) => cs.len(),
            _ => 0,
        };
        DataType { thin_type, column_id: None, maximum_column_id: None, subtype_count }
    }

    /// The direct child at `child_id`: the element of a list, the key or
    /// value of a mapping, or the selected field or alternative. Reports the
    /// shape mismatch itself, so callers need not match on the shape first.
    pub fn get_subtype(&self, child_id: usize) -> (r: Result<&DataType, Error>)
        requires
            self.count_ok(),
        ensures
            match r {
                Ok(c) => self.subtype_spec(child_id as int) == Some(*c),
                Err(e) => self.subtype_spec(child_id as int) is None && e matches Error::DataTypeError(_),
            },
    {
        match &self.thin_type {
            ThinType::List(s) => match child_id {
                0 => Ok(s),
                _ => Err(Error::DataTypeError("Lists have only one subtype.".to_string())),
            },
            ThinType::Mapping(k, v) => match child_id {
                0 => Ok(k),
                1 => Ok(v),
                _ => Err(Error::DataTypeError("Maps have only two subtypes.".to_string())),
            },
            ThinType::Struct(f) => {
                if child_id < self.subtype_count {
                    Ok(&f[child_id].datatype)
                } else {
                    Err(Error::DataTypeError("Index out of bound.".to_string()))
                }
            },
            ThinType::Union(s) => {
                if child_id < self.subtype_count {
                    Ok(&s[child_id])
                } else {
                    Err(Error::DataTypeError("Index out of bound.".to_string()))
                }
            },
            _ => Err(Error::DataTypeError("Primitive types do not have subtypes.".to_string())),
        }
    }

    /// The name of the field at `child_id`; only `Struct` nodes have names.
    pub fn get_field_name(&self, child_id: usize) -> (r: Result<String, Error>)
        requires
            self.count_ok(),
        ensures
            match r {
                Ok(n) => self.field_name_spec(child_id as int) == Some(n@),
                Err(e) => self.field_name_spec(child_id as int) is None && e matches Error::DataTypeError(_),
            },
    {
        match &self.thin_type {
            ThinType::Struct(f) => {
                if child_id < self.subtype_count {
                    Ok(f[child_id].name.clone())
                } else {
                    Err(Error::DataTypeError("Index out of bound.".to_string()))
                }
            },
            _ => Err(Error::DataTypeError("Non-structs do not have fieldnames.".to_string())),
        }
    }

    /// The maximum length of a `Char` or `Varchar` node.
    pub fn get_maximum_length(&self) -> (r: Result<u64, Error>)
        ensures
            match r {
                Ok(n) => (self.thin_type == ThinType::Char(n) || self.thin_type == ThinType::Varchar(n)),
                Err(e) => !is_char_kind(kind_of(self.thin_type)) && e matches Error::DataTypeError(_),
            },
    {
        match &self.thin_type {
            ThinType::Char(max_length) | ThinType::Varchar(max_length) => Ok(*max_length),
            _ => Err(Error::DataTypeError(
                "DataTypes other than Char or Varchar do not have maximum length.".to_string(),
            )),
        }
    }

    /// The precision of a `Decimal` node.
    pub fn get_precision(&self) -> (r: Result<u64, Error>)
        ensures
            match r {
                Ok(p) => self.thin_type matches ThinType::Decimal(pp, _) && pp == p,
                Err(e) => !(self.thin_type matches ThinType::Decimal(_, _)) && e matches Error::DataTypeError(_),
            },
    {
        match &self.thin_type {
            ThinType::Decimal(precision, _) => Ok(*precision),
            _ => Err(Error::DataTypeError(
                "DataTypes other than Decimal do not have precision.".to_string(),
            )),
        }
    }

    /// The scale of a `Decimal` node.
    pub fn get_scale(&self) -> (r: Result<u64, Error>)
        ensures
            match r {
                Ok(s) => self.thin_type matches ThinType::Decimal(_, ss) && ss == s,
                Err(e) => !(self.thin_type matches ThinType::Decimal(_, _)) && e matches Error::DataTypeError(_),
            },
    {
        match &self.thin_type {
            ThinType::Decimal(_, scale) => Ok(*scale),
            _ => Err(Error::DataTypeError(
                "DataTypes other than Decimal do not have scale.".to_string(),
            )),
        }
    }
}

/// A fresh leaf of a primitive kind; the other kinds need payload and fail.
pub fn create_primitive_type(kind: &TypeKind) -> (r: Result<Box<DataType>, Error>)
    ensures
        match r {
            Ok(d) => primitive_thin(*kind) == Some(d.thin_type) && fresh_node(*d, d.thin_type),
            Err(e) => !is_primitive_kind(*kind) && e matches Error::DataTypeError(_),
        },
{
    if kind.is_primitive() {
        match ThinType::try_from(*kind) {
            Ok(t) => Ok(Box::new(DataType::new(t))),
            Err(e) => {
                proof {
                    lemma_primitive_kind_round_trip(*kind);
                }
                Err(e)
            },
        }
    } else {
        Err(Error::DataTypeError("The TypeKind is not primitive".to_string()))
    }
}

/// A fresh `Char` or `Varchar` leaf with the given length bound, stored
/// verbatim; other kinds fail.
pub fn create_char_type(kind: &TypeKind, max_length: u64) -> (r: Result<Box<DataType>, Error>)
    ensures
        match r {
            Ok(d) => (*kind == TypeKind::Char ==> fresh_node(*d, ThinType::Char(max_length)))
                && (*kind == TypeKind::Varchar ==> fresh_node(*d, ThinType::Varchar(max_length)))
                && is_char_kind(*kind),
            Err(e) => !is_char_kind(*kind) && e matches Error::DataTypeError(_),
        },
{
    let thin_type = match kind {
        TypeKind::Char => ThinType::Char(max_length),
        TypeKind::Varchar => ThinType::Varchar(max_length),
        _ => {
            return Err(Error::DataTypeError("The TypeKind is not Char or Varchar".to_string()));
        },
    };
    Ok(Box::new(DataType::new(thin_type)))
}

/// A fresh `Decimal` leaf; any kind but `Decimal` fails.
pub fn create_decimal_type(kind: &TypeKind, precision: u64, scale: u64) -> (r: Result<
    Box<DataType>,
    Error,
>)
    ensures
        match r {
            Ok(d) => *kind == TypeKind::Decimal && fresh_node(*d, ThinType::Decimal(precision, scale)),
            Err(e) => *kind != TypeKind::Decimal && e matches Error::DataTypeError(_),
        },
{
    match kind {
        TypeKind::Decimal => Ok(Box::new(DataType::new(ThinType::Decimal(precision, scale)))),
        _ => Err(Error::DataTypeError("The TypeKind is not decimal".to_string())),
    }
}

/// A fresh `Struct` node with no fields yet; fields are appended afterward
/// through [`DataType::add_field`].
pub fn create_struct_type() -> (r: Result<Box<DataType>, Error>)
    ensures
        r matches Ok(d) && d.thin_type matches ThinType::Struct(fs) && fs@.len() == 0
            && fresh_node(*d, d.thin_type),
{
    Ok(Box::new(DataType::new(ThinType::Struct(Vec::new()))))
}

/// A fresh `List` node; ownership of the element type moves into it.
pub fn create_list_type(element_type: Box<DataType>) -> (r: Result<Box<DataType>, Error>)
    ensures
        r matches Ok(d) && fresh_node(*d, ThinType::List(element_type)),
{
    Ok(Box::new(DataType::new(ThinType::List(element_type))))
}

/// A fresh `Mapping` node; ownership of both child types moves into it.
pub fn create_map_type(key_type: Box<DataType>, value_type: Box<DataType>) -> (r: Result<
    Box<DataType>,
    Error,
>)
    ensures
        r matches Ok(d) && fresh_node(*d, ThinType::Mapping(key_type, value_type)),
{
    Ok(Box::new(DataType::new(ThinType::Mapping(key_type, value_type))))
}

/// A fresh `Union` node with no alternatives yet; alternatives are appended
/// afterward through [`DataType::add_alternative`].
pub fn create_union_type() -> (r: Result<Box<DataType>, Error>)
    ensures
        r matches Ok(d) && d.thin_type matches ThinType::Union(cs) && cs@.len() == 0
            && fresh_node(*d, d.thin_type),
{
    Ok(Box::new(DataType::new(ThinType::Union(Vec::new()))))
}

impl DataType {
    /// Appends a field to a `Struct` node, keeping the cached arity in
    /// step; any other shape fails and the node is left unchanged.
    pub fn add_field(&mut self, field: Field) -> (r: Result<(), Error>)
        ensures
            match r {
                Ok(()) => old(self).thin_type matches ThinType::Struct(fs)
                    && final(self).thin_type matches ThinType::Struct(fs2) && fs2@ == fs@.push(field)
                    && final(self).subtype_count == fs@.len() + 1
                    && final(self).column_id == old(self).column_id
                    && final(self).maximum_column_id == old(self).maximum_column_id,
                Err(e) => !(old(self).thin_type matches ThinType::Struct(_)) && *final(self) == *old(self)
                    && e matches Error::DataTypeError(_),
            },
    {
        match &mut self.thin_type {
            ThinType::Struct(fs) => {
                fs.push(field);
                let n = fs.len();
                self.subtype_count = n;
                Ok(())
            },
            _ => Err(Error::DataTypeError("Fields can only be added to structs.".to_string())),
        }
    }

    /// Appends an alternative to a `Union` node, keeping the cached arity
    /// in step; any other shape fails and the node is left unchanged.
    pub fn add_alternative(&mut self, datatype: Box<DataType>) -> (r: Result<(), Error>)
        ensures
            match r {
                Ok(()) => old(self).thin_type matches ThinType::Union(cs)
                    && final(self).thin_type matches ThinType::Union(cs2) && cs2@ == cs@.push(datatype)
                    && final(self).subtype_count == cs@.len() + 1
                    && final(self).column_id == old(self).column_id
                    && final(self).maximum_column_id == old(self).maximum_column_id,
                Err(e) => !(old(self).thin_type matches ThinType::Union(_)) && *final(self) == *old(self)
                    && e matches Error::DataTypeError(_),
            },
    {
        match &mut self.thin_type {
            ThinType::Union(cs) => {
                cs.push(datatype);
                let n = cs.len();
                self.subtype_count = n;
                Ok(())
            },
            _ => Err(Error::DataTypeError(
                "Alternatives can only be added to unions.".to_string(),
            )),
        }
    }
}

} // verus!
