//! Types of the Lua type system: identifiers, primitive kinds and the type
//! representations stored in a type environment.
use vstd::prelude::*;

verus! {

/// TypeId define a unique type identifier within a type environment.
#[derive(PartialEq, Eq, Structural, Clone, Copy, Debug, Hash, PartialOrd, Ord)]
pub struct TypeId(pub usize);

#[allow(non_snake_case)]
impl TypeId {
    /// Identifier of the `never` type.
    pub fn NEVER() -> (r: TypeId)
        ensures
            r == TypeId(0),
    {
        TypeId(0)
    }

    /// Identifier of the `any` type.
    pub fn ANY() -> (r: TypeId)
        ensures
            r == TypeId(1),
    {
        TypeId(1)
    }

    /// Identifier of the `unknown` type.
    pub fn UNKNOWN() -> (r: TypeId)
        ensures
            r == TypeId(2),
    {
        TypeId(2)
    }

    /// Identifier of the `nil` primitive type.
    pub fn NIL() -> (r: TypeId)
        ensures
            r == TypeId(3),
    {
        TypeId(3)
    }

    /// Identifier of the `boolean` primitive type.
    pub fn BOOLEAN() -> (r: TypeId)
        ensures
            r == TypeId(4),
    {
        TypeId(4)
    }

    /// Identifier of the `number` primitive type.
    pub fn NUMBER() -> (r: TypeId)
        ensures
            r == TypeId(5),
    {
        TypeId(5)
    }

    /// Identifier of the `string` primitive type.
    pub fn STRING() -> (r: TypeId)
        ensures
            r == TypeId(6),
    {
        TypeId(6)
    }
}

/// PrimitiveKind enumerates all Lua primitive types.
#[derive(PartialEq, Eq, Structural, Clone, Copy, Debug, Hash)]
pub enum PrimitiveKind {
    Nil,
    Boolean,
    Number,
    String,
}

impl PrimitiveKind {
    /// Identifier of the primitive type of this kind in every root environment.
    pub open spec fn spec_type_id(self) -> TypeId {
        match self {
            PrimitiveKind::Nil => TypeId(3),
            PrimitiveKind::Boolean => TypeId(4),
            PrimitiveKind::Number => TypeId(5),
            PrimitiveKind::String => TypeId(6),
        }
    }

    /// Returns the identifier of the primitive type of this kind.
    pub fn type_id(self) -> (r: TypeId)
        ensures
            r == self.spec_type_id(),
    {
        match self {
            PrimitiveKind::Nil => TypeId(3),
            PrimitiveKind::Boolean => TypeId(4),
            PrimitiveKind::Number => TypeId(5),
            PrimitiveKind::String => TypeId(6),
        }
    }
}

/// Mathematical model of a [Type]: literal values are character sequences
/// and identifier lists are sequences.
pub enum TypeModel {
    Never,
    Literal { value: Seq<char>, kind: PrimitiveKind },
    Primitive { kind: PrimitiveKind, metatable: TypeId },
    Function { params: Seq<TypeId>, results: Seq<TypeId> },
    Union { types: Seq<TypeId> },
    Iface { fields: Seq<(TypeId, TypeId)> },
    Require { params: Seq<TypeId>, results: Seq<TypeId> },
    Global { fields: Seq<(TypeId, TypeId)> },
    Any,
    Unknown,
}

/// FunctionType define a Lua function type.
#[derive(Debug, PartialEq, Eq, Clone, Hash)]
pub struct FunctionType {
    pub params: Vec<TypeId>,
    pub results: Vec<TypeId>,
}

/// UnionType define a Lua union type.
#[derive(Debug, PartialEq, Eq, Clone, Hash)]
pub struct UnionType {
    pub types: Vec<TypeId>,
}

/// IfaceType define a Lua table with keys and values of specified types.
/// Every type that contains those fields is assignable to an interface.
/// Fields are kept ordered by key, each key at most once.
#[derive(Debug, PartialEq, Eq, Clone, Hash)]
pub struct IfaceType {
    fields: Vec<(TypeId, TypeId)>,
}

/// Type define a Lua type in our type system.
#[derive(Debug, PartialEq, Eq, Clone, Hash)]
pub enum Type {
    Never,
    Literal { value: String, kind: PrimitiveKind },
    Primitive { kind: PrimitiveKind, metatable: TypeId },
    Function(FunctionType),
    Union(UnionType),
    Iface(IfaceType),
    Require(FunctionType),
    Global(IfaceType),
    Any,
    Unknown,
}

/// Map of fields obtained by inserting `(k, v)` in `fields` (ordered by key):
/// an existing entry with key `k` gets value `v`, otherwise the entry is
/// added before the first greater key.
pub open spec fn fields_insert(fields: Seq<(TypeId, TypeId)>, k: TypeId, v: TypeId) -> Seq<
    (TypeId, TypeId),
>
    decreases fields.len(),
{
    if fields.len() == 0 {
        seq![(k, v)]
    } else if fields[0].0 == k {
        seq![(k, v)] + fields.drop_first()
    } else if k.0 < fields[0].0.0 {
        seq![(k, v)] + fields
    } else {
        seq![fields[0]] + fields_insert(fields.drop_first(), k, v)
    }
}

/// Map of fields built by inserting every pair of `pairs` in order, later
/// pairs overriding earlier ones with the same key.
pub open spec fn fields_from(pairs: Seq<(TypeId, TypeId)>) -> Seq<(TypeId, TypeId)>
    decreases pairs.len(),
{
    if pairs.len() == 0 {
        seq![]
    } else {
        fields_insert(fields_from(pairs.drop_last()), pairs.last().0, pairs.last().1)
    }
}

/// Value associated with key `k` in `fields`, if any.
pub open spec fn fields_get(fields: Seq<(TypeId, TypeId)>, k: TypeId) -> Option<TypeId>
    decreases fields.len(),
{
    if fields.len() == 0 {
        None
    } else if fields[0].0 == k {
        Some(fields[0].1)
    } else {
        fields_get(fields.drop_first(), k)
    }
}

impl View for FunctionType {
    type V = (Seq<TypeId>, Seq<TypeId>);

    open spec fn view(&self) -> (Seq<TypeId>, Seq<TypeId>) {
        (self.params@, self.results@)
    }
}

impl View for IfaceType {
    type V = Seq<(TypeId, TypeId)>;

    closed spec fn view(&self) -> Seq<(TypeId, TypeId)> {
        self.fields@
    }
}

impl View for Type {
    type V = TypeModel;

    open spec fn view(&self) -> TypeModel {
        match self {
            Type::Never => TypeModel::Never,
            Type::Literal { value, kind } => TypeModel::Literal { value: value@, kind: *kind },
            Type::Primitive { kind, metatable } => TypeModel::Primitive {
                kind: *kind,
                metatable: *metatable,
            },
            Type::Function(f) => TypeModel::Function { params: f.params@, results: f.results@ },
            Type::Union(u) => TypeModel::Union { types: u.types@ },
            Type::Iface(i) => TypeModel::Iface { fields: i@ },
            Type::Require(f) => TypeModel::Require { params: f.params@, results: f.results@ },
            Type::Global(i) => TypeModel::Global { fields: i@ },
            Type::Any => TypeModel::Any,
            Type::Unknown => TypeModel::Unknown,
        }
    }
}

/// Copies a sequence of type identifiers.
pub fn copy_ids(ids: &Vec<TypeId>) -> (r: Vec<TypeId>)
    ensures
        r@ == ids@,
{
    let mut r: Vec<TypeId> = Vec::new();
    let mut i: usize = 0;
    while i < ids.len()
        invariant
            i <= ids.len(),
            r@ == ids@.take(i as int),
        decreases ids.len() - i,
    {
        r.push(ids[i]);
        i += 1;
        assert(r@ =~= ids@.take(i as int));
    }
    assert(ids@.take(ids.len() as int) =~= ids@);
    r
}

/// Compares two sequences of type identifiers.
pub fn same_ids(a: &Vec<TypeId>, b: &Vec<TypeId>) -> (r: bool)
    ensures
        r == (a@ == b@),
{
    if a.len() != b.len() {
        return false;
    }
    let mut i: usize = 0;
    while i < a.len()
        invariant
            i <= a.len(),
            a.len() == b.len(),
            forall|j: int| 0 <= j < i ==> a@[j] == b@[j],
        decreases a.len() - i,
    {
        if a[i] != b[i] {
            return false;
        }
        i += 1;
    }
    assert(a@ =~= b@);
    true
}

impl FunctionType {
    /// Creates a function type with the given parameters and results.
    pub fn new(params: Vec<TypeId>, results: Vec<TypeId>) -> (r: FunctionType)
        ensures
            r.params@ == params@,
            r.results@ == results@,
    {
        FunctionType { params, results }
    }

    /// Copies this function type.
    pub fn duplicate(&self) -> (r: FunctionType)
        ensures
            r@ == self@,
    {
        FunctionType { params: copy_ids(&self.params), results: copy_ids(&self.results) }
    }
}

impl UnionType {
    /// Creates a union of the given types.
    pub fn new(types: Vec<TypeId>) -> (r: UnionType)
        ensures
            r.types@ == types@,
    {
        UnionType { types }
    }
}

impl IfaceType {
    /// Creates an interface type with the given fields. A key given several
    /// times keeps the last value given for it.
    pub fn new(pairs: Vec<(TypeId, TypeId)>) -> (r: IfaceType)
        ensures
            r@ == fields_from(pairs@),
    {
        let mut fields: Vec<(TypeId, TypeId)> = Vec::new();
        let mut i: usize = 0;
        while i < pairs.len()
            invariant
                i <= pairs.len(),
                fields@ == fields_from(pairs@.take(i as int)),
            decreases pairs.len() - i,
        {
            let (k, v) = pairs[i];
            insert_field(&mut fields, k, v);
            proof {
                assert(pairs@.take(i + 1).drop_last() =~= pairs@.take(i as int));
            }
            i += 1;
        }
        assert(pairs@.take(pairs.len() as int) =~= pairs@);
        IfaceType { fields }
    }

    /// Creates an interface type from fields already ordered by key.
    pub(crate) fn from_fields(fields: Vec<(TypeId, TypeId)>) -> (r: IfaceType)
        ensures
            r@ == fields@,
    {
        IfaceType { fields }
    }

    /// Fields of the interface, ordered by key.
    pub fn fields(&self) -> (r: &Vec<(TypeId, TypeId)>)
        ensures
            r@ == self@,
    {
        &self.fields
    }

    /// Returns the type of the field with the given key type.
    pub fn get(&self, key: TypeId) -> (r: Option<TypeId>)
        ensures
            r == fields_get(self@, key),
    {
        let mut i: usize = 0;
        assert(self.fields@.skip(0) =~= self.fields@);
        while i < self.fields.len()
            invariant
                i <= self.fields.len(),
                fields_get(self.fields@, key) == fields_get(self.fields@.skip(i as int), key),
            decreases self.fields.len() - i,
        {
            let (k, v) = self.fields[i];
            proof {
                assert(self.fields@.skip(i as int).drop_first() =~= self.fields@.skip(i + 1));
            }
            if k == key {
                return Some(v);
            }
            i += 1;
        }
        proof {
            assert(self.fields@.skip(i as int) =~= Seq::<(TypeId, TypeId)>::empty());
        }
        None
    }

    /// Copies this interface type.
    pub fn duplicate(&self) -> (r: IfaceType)
        ensures
            r@ == self@,
    {
        let mut fields: Vec<(TypeId, TypeId)> = Vec::new();
        let mut i: usize = 0;
        while i < self.fields.len()
            invariant
                i <= self.fields.len(),
                fields@ == self.fields@.take(i as int),
            decreases self.fields.len() - i,
        {
            fields.push(self.fields[i]);
            i += 1;
            assert(fields@ =~= self.fields@.take(i as int));
        }
        assert(self.fields@.take(self.fields.len() as int) =~= self.fields@);
        IfaceType { fields }
    }

    /// Compares two interface types.
    pub fn same_as(&self, other: &IfaceType) -> (r: bool)
        ensures
            r == (self@ == other@),
    {
        if self.fields.len() != other.fields.len() {
            return false;
        }
        let mut i: usize = 0;
        while i < self.fields.len()
            invariant
                i <= self.fields.len(),
                self.fields.len() == other.fields.len(),
                forall|j: int| 0 <= j < i ==> self.fields@[j] == other.fields@[j],
            decreases self.fields.len() - i,
        {
            let (a, b) = self.fields[i];
            let (c, d) = other.fields[i];
            if a != c || b != d {
                return false;
            }
            i += 1;
        }
        assert(self.fields@ =~= other.fields@);
        true
    }
}

/// Position of the first entry whose key is not smaller than `k`.
proof fn lemma_fields_insert_at(
    fields: Seq<(TypeId, TypeId)>,
    k: TypeId,
    v: TypeId,
    i: int,
)
    requires
        0 <= i <= fields.len(),
        forall|j: int| 0 <= j < i ==> fields[j].0.0 < k.0,
        i < fields.len() ==> fields[i].0.0 >= k.0,
    ensures
        fields_insert(fields, k, v) == (if i < fields.len() && fields[i].0 == k {
            fields.take(i) + seq![(k, v)] + fields.skip(i + 1)
        } else {
            fields.take(i) + seq![(k, v)] + fields.skip(i)
        }),
    decreases i,
{
    if i == 0 {
        if fields.len() == 0 {
            assert(fields.take(0) + seq![(k, v)] + fields.skip(0) =~= seq![(k, v)]);
        } else if fields[0].0 == k {
            assert(fields.take(0) + seq![(k, v)] + fields.skip(1) =~= seq![(k, v)]
                + fields.drop_first());
        } else {
            assert(fields.take(0) + seq![(k, v)] + fields.skip(0) =~= seq![(k, v)] + fields);
        }
    } else {
        let rest = fields.drop_first();
        assert forall|j: int| 0 <= j < i - 1 implies rest[j].0.0 < k.0 by {
            assert(rest[j] == fields[j + 1]);
        }
        lemma_fields_insert_at(rest, k, v, i - 1);
        assert(fields[0].0 != k);
        if i < fields.len() && fields[i].0 == k {
            assert(seq![fields[0]] + (rest.take(i - 1) + seq![(k, v)] + rest.skip(i)) =~= fields.take(
                i,
            ) + seq![(k, v)] + fields.skip(i + 1));
        } else {
            assert(seq![fields[0]] + (rest.take(i - 1) + seq![(k, v)] + rest.skip(i - 1))
                =~= fields.take(i) + seq![(k, v)] + fields.skip(i));
        }
    }
}

/// Inserts `(k, v)` in `fields` as [BTreeMap::insert] does.
fn insert_field(fields: &mut Vec<(TypeId, TypeId)>, k: TypeId, v: TypeId)
    ensures
        final(fields)@ == fields_insert(old(fields)@, k, v),
{
    let mut i: usize = 0;
    while i < fields.len() && fields[i].0.0 < k.0
        invariant
            i <= fields.len(),
            fields@ == old(fields)@,
            forall|j: int| 0 <= j < i ==> fields@[j].0.0 < k.0,
        decreases fields.len() - i,
    {
        i += 1;
    }
    proof {
        lemma_fields_insert_at(old(fields)@, k, v, i as int);
    }
    if i < fields.len() && fields[i].0 == k {
        fields.set(i, (k, v));
        assert(fields@ =~= old(fields)@.take(i as int) + seq![(k, v)] + old(fields)@.skip(
            i + 1,
        ));
    } else {
        fields.insert(i, (k, v));
        assert(fields@ =~= old(fields)@.take(i as int) + seq![(k, v)] + old(fields)@.skip(
            i as int,
        ));
    }
}


/// Quoted form of a string as Rust's `Debug` formatting writes it.
pub uninterp spec fn debug_quoted(s: Seq<char>) -> Seq<char>;

/// Formats `s` with `{:?}`, the `Debug` formatting of `str` in std: the
/// string between double quotes with special characters escaped. The result
/// is a function of `s` alone; its exact escaping rules are not stated here.
#[verifier::external_body]
pub(crate) fn debug_quote(s: &String) -> (r: String)
    ensures
        r@ == debug_quoted(s@),
{
    format!("{:?}", s)
}

/// Text of a boolean value, as `bool::to_string` writes it.
pub open spec fn bool_text(b: bool) -> Seq<char> {
    if b {
        seq!['t', 'r', 'u', 'e']
    } else {
        seq!['f', 'a', 'l', 's', 'e']
    }
}

/// Returns the text of a boolean value.
pub fn bool_string(b: bool) -> (r: String)
    ensures
        r@ == bool_text(b),
{
    if b {
        let s = String::from_str("true");
        proof {
            reveal_strlit("true");
        }
        s
    } else {
        let s = String::from_str("false");
        proof {
            reveal_strlit("false");
        }
        s
    }
}

#[allow(non_snake_case)]
impl Type {
    /// The `nil` primitive type.
    pub fn NIL() -> (r: Type)
        ensures
            r@ == (TypeModel::Primitive { kind: PrimitiveKind::Nil, metatable: TypeId(3) }),
    {
        Type::Primitive { kind: PrimitiveKind::Nil, metatable: TypeId(3) }
    }

    /// The `boolean` primitive type.
    pub fn BOOLEAN() -> (r: Type)
        ensures
            r@ == (TypeModel::Primitive { kind: PrimitiveKind::Boolean, metatable: TypeId(3) }),
    {
        Type::Primitive { kind: PrimitiveKind::Boolean, metatable: TypeId(3) }
    }

    /// The `number` primitive type.
    pub fn NUMBER() -> (r: Type)
        ensures
            r@ == (TypeModel::Primitive { kind: PrimitiveKind::Number, metatable: TypeId(3) }),
    {
        Type::Primitive { kind: PrimitiveKind::Number, metatable: TypeId(3) }
    }

    /// The `string` primitive type.
    pub fn STRING() -> (r: Type)
        ensures
            r@ == (TypeModel::Primitive { kind: PrimitiveKind::String, metatable: TypeId(3) }),
    {
        Type::Primitive { kind: PrimitiveKind::String, metatable: TypeId(3) }
    }

    /// Literal string type of the given value; the value is stored quoted.
    pub fn string(value: String) -> (r: Type)
        ensures
            r@ == (TypeModel::Literal { value: debug_quoted(value@), kind: PrimitiveKind::String }),
    {
        Type::Literal { value: debug_quote(&value), kind: PrimitiveKind::String }
    }

    /// Literal number type whose value is written `text` (the number as
    /// Lua writes it).
    pub fn number_literal(text: String) -> (r: Type)
        ensures
            r@ == (TypeModel::Literal { value: text@, kind: PrimitiveKind::Number }),
    {
        Type::Literal { value: text, kind: PrimitiveKind::Number }
    }

    /// Literal boolean type of the given value.
    pub fn boolean(value: bool) -> (r: Type)
        ensures
            r@ == (TypeModel::Literal { value: bool_text(value), kind: PrimitiveKind::Boolean }),
    {
        Type::Literal { value: bool_string(value), kind: PrimitiveKind::Boolean }
    }

    /// Copies this type.
    pub fn duplicate(&self) -> (r: Type)
        ensures
            r@ == self@,
    {
        match self {
            Type::Never => Type::Never,
            Type::Literal { value, kind } => Type::Literal { value: value.clone(), kind: *kind },
            Type::Primitive { kind, metatable } => Type::Primitive {
                kind: *kind,
                metatable: *metatable,
            },
            Type::Function(f) => Type::Function(f.duplicate()),
            Type::Union(u) => Type::Union(UnionType { types: copy_ids(&u.types) }),
            Type::Iface(i) => Type::Iface(i.duplicate()),
            Type::Require(f) => Type::Require(f.duplicate()),
            Type::Global(i) => Type::Global(i.duplicate()),
            Type::Any => Type::Any,
            Type::Unknown => Type::Unknown,
        }
    }

    /// Compares two types.
    pub fn same_as(&self, other: &Type) -> (r: bool)
        ensures
            r == (self@ == other@),
    {
        match (self, other) {
            (Type::Never, Type::Never) => true,
            (Type::Literal { value: v1, kind: k1 }, Type::Literal { value: v2, kind: k2 }) => {
                *k1 == *k2 && v1.eq(v2)
            },
            (
                Type::Primitive { kind: k1, metatable: m1 },
                Type::Primitive { kind: k2, metatable: m2 },
            ) => *k1 == *k2 && *m1 == *m2,
            (Type::Function(f1), Type::Function(f2)) => same_ids(&f1.params, &f2.params)
                && same_ids(&f1.results, &f2.results),
            (Type::Union(u1), Type::Union(u2)) => same_ids(&u1.types, &u2.types),
            (Type::Iface(i1), Type::Iface(i2)) => i1.same_as(i2),
            (Type::Require(f1), Type::Require(f2)) => same_ids(&f1.params, &f2.params)
                && same_ids(&f1.results, &f2.results),
            (Type::Global(i1), Type::Global(i2)) => i1.same_as(i2),
            (Type::Any, Type::Any) => true,
            (Type::Unknown, Type::Unknown) => true,
            _ => false,
        }
    }
}

impl From<FunctionType> for Type {
    fn from(value: FunctionType) -> (r: Type) {
        Type::Function(value)
    }
}

impl vstd::std_specs::convert::FromSpecImpl<FunctionType> for Type {
    open spec fn obeys_from_spec() -> bool {
        true
    }

    open spec fn from_spec(v: FunctionType) -> Type {
        Type::Function(v)
    }
}

impl From<UnionType> for Type {
    fn from(value: UnionType) -> (r: Type) {
        Type::Union(value)
    }
}

impl vstd::std_specs::convert::FromSpecImpl<UnionType> for Type {
    open spec fn obeys_from_spec() -> bool {
        true
    }

    open spec fn from_spec(v: UnionType) -> Type {
        Type::Union(v)
    }
}

impl From<IfaceType> for Type {
    fn from(value: IfaceType) -> (r: Type) {
        Type::Iface(value)
    }
}

impl vstd::std_specs::convert::FromSpecImpl<IfaceType> for Type {
    open spec fn obeys_from_spec() -> bool {
        true
    }

    open spec fn from_spec(v: IfaceType) -> Type {
        Type::Iface(v)
    }
}

impl From<PrimitiveKind> for TypeId {
    fn from(value: PrimitiveKind) -> (r: TypeId) {
        value.type_id()
    }
}

impl vstd::std_specs::convert::FromSpecImpl<PrimitiveKind> for TypeId {
    open spec fn obeys_from_spec() -> bool {
        true
    }

    open spec fn from_spec(v: PrimitiveKind) -> TypeId {
        v.spec_type_id()
    }
}

} // verus!
