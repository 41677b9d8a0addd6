//! The descriptors that a binary carries for each exported function and
//! struct, and the conversions that its exports apply at the boundary.

use vstd::prelude::*;
use vstd::multiset::Multiset;

verus! {

broadcast use vstd::seq_lib::group_to_multiset_ensures, vstd::multiset::group_multiset_axioms, vstd::seq::group_seq_axioms;

/// The symbols whose names start with this prefix return one export
/// descriptor each.
pub const BINDGEN_DESCRIBE_PREFIX: &'static str = "__bindgen_describe";

/// The section that holds the constant data of the descriptors. Section
/// names of some object formats are limited to 8 characters.
pub const BINDGEN_DATA_SECTION_NAME: &'static str = ".bgendat";

/// The section that holds the descriptor table.
pub const BINDGEN_SECTION_NAME: &'static str = ".bindgen";

/// The type of an argument, a return value or a field.
#[derive(Debug)]
pub enum BindgenTypeDescriptor {
    Void,
    Int { width: u8, signed: bool },
    Bool,
    Slice { elem_type: Box<BindgenTypeDescriptor> },
    Struct(BindgenStructDescriptor),
}

#[derive(Debug)]
pub struct BindgenFunctionArgumentDescriptor {
    pub name: String,
    pub ty: BindgenTypeDescriptor,
}

#[derive(Debug)]
pub struct BindgenFunctionDescriptor {
    /// The name of the function in its source.
    pub real_name: String,
    /// The linkable symbol of the function; unique within a binary.
    pub thunk_name: String,
    pub arguments: Vec<BindgenFunctionArgumentDescriptor>,
    pub return_ty: BindgenTypeDescriptor,
}

#[derive(Debug)]
pub struct BindgenStructFieldDescriptor {
    /// The name of the field in its source.
    pub name: String,
    pub ty: BindgenTypeDescriptor,
}

#[derive(Debug)]
pub struct BindgenStructDescriptor {
    /// The name of the struct in its source.
    pub name: String,
    /// The fields, in their order of declaration.
    pub fields: Vec<BindgenStructFieldDescriptor>,
}

#[derive(Debug)]
pub enum BindgenExportDescriptor {
    Function(BindgenFunctionDescriptor),
    Struct(BindgenStructDescriptor),
}

/// The part of a descriptor type that decides how it crosses the boundary.
pub enum DescView {
    Void,
    Int(u8, bool),
    Bool,
    Slice(Box<DescView>),
    Struct(Seq<char>),
}

pub open spec fn desc_view(d: BindgenTypeDescriptor) -> DescView
    decreases d,
{
    match d {
        BindgenTypeDescriptor::Void => DescView::Void,
        BindgenTypeDescriptor::Int { width, signed } => DescView::Int(width, signed),
        BindgenTypeDescriptor::Bool => DescView::Bool,
        BindgenTypeDescriptor::Slice { elem_type } => DescView::Slice(Box::new(desc_view(*elem_type))),
        BindgenTypeDescriptor::Struct(s) => DescView::Struct(s.name@),
    }
}

impl BindgenTypeDescriptor {
    pub fn copy(&self) -> (r: BindgenTypeDescriptor)
        ensures
            desc_view(r) == desc_view(*self),
            r is Void <==> self is Void,
        decreases self,
    {
        match self {
            BindgenTypeDescriptor::Void => BindgenTypeDescriptor::Void,
            BindgenTypeDescriptor::Int { width, signed } => BindgenTypeDescriptor::Int {
                width: *width,
                signed: *signed,
            },
            BindgenTypeDescriptor::Bool => BindgenTypeDescriptor::Bool,
            BindgenTypeDescriptor::Slice { elem_type } => BindgenTypeDescriptor::Slice {
                elem_type: Box::new(elem_type.copy()),
            },
            BindgenTypeDescriptor::Struct(s) => BindgenTypeDescriptor::Struct(s.copy()),
        }
    }
}

impl BindgenStructDescriptor {
    pub fn copy(&self) -> (r: BindgenStructDescriptor)
        ensures
            r.name@ == self.name@,
            r.fields@.len() == self.fields@.len(),
        decreases self,
    {
        let mut fields: Vec<BindgenStructFieldDescriptor> = Vec::new();
        let mut i: usize = 0;
        while i < self.fields.len()
            invariant
                i <= self.fields@.len(),
                fields@.len() == i,
            decreases self.fields.len() - i,
        {
            let f = &self.fields[i];
            fields.push(BindgenStructFieldDescriptor { name: f.name.clone(), ty: f.ty.copy() });
            i = i + 1;
        }
        BindgenStructDescriptor { name: self.name.clone(), fields }
    }
}

pub open spec fn has_prefix(s: Seq<char>, p: Seq<char>) -> bool {
    p.len() <= s.len() && s.take(p.len() as int) == p
}

/// Whether a dynamic symbol is one of the descriptor-returning functions.
pub fn is_descriptor_symbol(name: &str) -> (r: bool)
    ensures
        r == has_prefix(name@, BINDGEN_DESCRIBE_PREFIX@),
{
    let prefix: &str = BINDGEN_DESCRIBE_PREFIX;
    let plen = prefix.unicode_len();
    let nlen = name.unicode_len();
    if plen > nlen {
        return false;
    }
    let mut i: usize = 0;
    while i < plen
        invariant
            plen == prefix@.len(),
            nlen == name@.len(),
            plen <= nlen,
            i <= plen,
            prefix@ == BINDGEN_DESCRIBE_PREFIX@,
            forall|j: int| 0 <= j < i ==> name@[j] == prefix@[j],
        decreases plen - i,
    {
        if name.get_char(i) != prefix.get_char(i) {
            assert(name@.take(plen as int)[i as int] != prefix@[i as int]);
            return false;
        }
        i = i + 1;
    }
    assert(name@.take(plen as int) =~= prefix@);
    true
}

/// The names, in their order, of the symbols that are descriptor-returning
/// functions.
pub fn descriptor_symbols(names: &Vec<String>) -> (r: Vec<String>)
    ensures
        r@.map_values(|s: String| s@) == names@.map_values(|s: String| s@).filter(
            |s: Seq<char>| has_prefix(s, BINDGEN_DESCRIBE_PREFIX@),
        ),
{
    let ghost all = names@.map_values(|s: String| s@);
    let ghost keep = |s: Seq<char>| has_prefix(s, BINDGEN_DESCRIBE_PREFIX@);
    let mut r: Vec<String> = Vec::new();
    let mut i: usize = 0;
    assert(all.take(0).filter(keep) =~= Seq::<Seq<char>>::empty());
    while i < names.len()
        invariant
            i <= names@.len(),
            all == names@.map_values(|s: String| s@),
            keep == (|s: Seq<char>| has_prefix(s, BINDGEN_DESCRIBE_PREFIX@)),
            r@.map_values(|s: String| s@) == all.take(i as int).filter(keep),
        decreases names.len() - i,
    {
        assert(all.take(i + 1).drop_last() =~= all.take(i as int));
        reveal(Seq::filter);
        if is_descriptor_symbol(names[i].as_str()) {
            r.push(names[i].clone());
            assert(r@.map_values(|s: String| s@) =~= all.take(i + 1).filter(keep));
        } else {
            assert(r@.map_values(|s: String| s@) =~= all.take(i + 1).filter(keep));
        }
        i = i + 1;
    }
    assert(all.take(names@.len() as int) =~= all);
    r
}

/// Marks the types whose representation is the same on both sides of the
/// boundary.
pub trait FfiStable {}

impl FfiStable for i8 {}

impl FfiStable for i16 {}

impl FfiStable for i32 {}

impl FfiStable for i64 {}

impl FfiStable for u8 {}

impl FfiStable for u16 {}

impl FfiStable for u32 {}

impl FfiStable for u64 {}

/// How a value crosses the boundary: the representation it takes there, and
/// the conversions to and from it.
pub trait BindgenAbiConvert: Sized {
    type AbiType;

    spec fn from_abi(abi_value: Self::AbiType) -> Self;

    spec fn to_abi(self) -> Self::AbiType;

    fn from_abi_type(abi_value: Self::AbiType) -> (r: Self)
        ensures
            r == Self::from_abi(abi_value),
    ;

    fn to_abi_type(self) -> (r: Self::AbiType)
        ensures
            r == self.to_abi(),
    ;
}

/// A type that is already stable crosses unchanged.
impl<T: FfiStable> BindgenAbiConvert for T {
    type AbiType = T;

    open spec fn from_abi(abi_value: T) -> T {
        abi_value
    }

    open spec fn to_abi(self) -> T {
        self
    }

    fn from_abi_type(abi_value: T) -> (r: T) {
        abi_value
    }

    fn to_abi_type(self) -> (r: T) {
        self
    }
}

/// A boolean crosses as a byte: 1 for true, 0 for false; any byte other than
/// 0 reads as true.
impl BindgenAbiConvert for bool {
    type AbiType = u8;

    open spec fn from_abi(abi_value: u8) -> bool {
        abi_value != 0
    }

    open spec fn to_abi(self) -> u8 {
        if self {
            1
        } else {
            0
        }
    }

    fn from_abi_type(abi_value: u8) -> (r: bool) {
        abi_value != 0
    }

    fn to_abi_type(self) -> (r: u8) {
        if self {
            1
        } else {
            0
        }
    }
}

/// Types that can name their own descriptor.
pub trait BindgenTypeDescribe {
    spec fn described() -> BindgenTypeDescriptor;

    fn describe() -> (r: BindgenTypeDescriptor)
        ensures
            r == Self::described(),
    ;
}

impl BindgenTypeDescribe for bool {
    open spec fn described() -> BindgenTypeDescriptor {
        BindgenTypeDescriptor::Bool
    }

    fn describe() -> (r: BindgenTypeDescriptor) {
        BindgenTypeDescriptor::Bool
    }
}

impl BindgenTypeDescribe for i8 {
    open spec fn described() -> BindgenTypeDescriptor {
        BindgenTypeDescriptor::Int { width: 8, signed: true }
    }

    fn describe() -> (r: BindgenTypeDescriptor) {
        BindgenTypeDescriptor::Int { width: 8, signed: true }
    }
}

impl BindgenTypeDescribe for i16 {
    open spec fn described() -> BindgenTypeDescriptor {
        BindgenTypeDescriptor::Int { width: 16, signed: true }
    }

    fn describe() -> (r: BindgenTypeDescriptor) {
        BindgenTypeDescriptor::Int { width: 16, signed: true }
    }
}

impl BindgenTypeDescribe for i32 {
    open spec fn described() -> BindgenTypeDescriptor {
        BindgenTypeDescriptor::Int { width: 32, signed: true }
    }

    fn describe() -> (r: BindgenTypeDescriptor) {
        BindgenTypeDescriptor::Int { width: 32, signed: true }
    }
}

impl BindgenTypeDescribe for i64 {
    open spec fn described() -> BindgenTypeDescriptor {
        BindgenTypeDescriptor::Int { width: 64, signed: true }
    }

    fn describe() -> (r: BindgenTypeDescriptor) {
        BindgenTypeDescriptor::Int { width: 64, signed: true }
    }
}

impl BindgenTypeDescribe for u8 {
    open spec fn described() -> BindgenTypeDescriptor {
        BindgenTypeDescriptor::Int { width: 8, signed: false }
    }

    fn describe() -> (r: BindgenTypeDescriptor) {
        BindgenTypeDescriptor::Int { width: 8, signed: false }
    }
}

impl BindgenTypeDescribe for u16 {
    open spec fn described() -> BindgenTypeDescriptor {
        BindgenTypeDescriptor::Int { width: 16, signed: false }
    }

    fn describe() -> (r: BindgenTypeDescriptor) {
        BindgenTypeDescriptor::Int { width: 16, signed: false }
    }
}

impl BindgenTypeDescribe for u32 {
    open spec fn described() -> BindgenTypeDescriptor {
        BindgenTypeDescriptor::Int { width: 32, signed: false }
    }

    fn describe() -> (r: BindgenTypeDescriptor) {
        BindgenTypeDescriptor::Int { width: 32, signed: false }
    }
}

impl BindgenTypeDescribe for u64 {
    open spec fn described() -> BindgenTypeDescriptor {
        BindgenTypeDescriptor::Int { width: 64, signed: false }
    }

    fn describe() -> (r: BindgenTypeDescriptor) {
        BindgenTypeDescriptor::Int { width: 64, signed: false }
    }
}


/// The function descriptors among the exports, in order.
pub open spec fn function_descs(ds: Seq<BindgenExportDescriptor>) -> Seq<BindgenFunctionDescriptor>
    decreases ds.len(),
{
    if ds.len() == 0 {
        Seq::empty()
    } else {
        function_descs(ds.drop_last()) + match ds.last() {
            BindgenExportDescriptor::Function(f) => seq![f],
            BindgenExportDescriptor::Struct(_) => Seq::empty(),
        }
    }
}

/// The struct descriptors among the exports, in order.
pub open spec fn struct_descs(ds: Seq<BindgenExportDescriptor>) -> Seq<BindgenStructDescriptor>
    decreases ds.len(),
{
    if ds.len() == 0 {
        Seq::empty()
    } else {
        struct_descs(ds.drop_last()) + match ds.last() {
            BindgenExportDescriptor::Struct(s) => seq![s],
            BindgenExportDescriptor::Function(_) => Seq::empty(),
        }
    }
}

/// The name that descriptors are ordered by: the source name of a function
/// or of a struct.
pub open spec fn export_key(d: BindgenExportDescriptor) -> Seq<u32> {
    code_points(
        match d {
            BindgenExportDescriptor::Function(f) => f.real_name@,
            BindgenExportDescriptor::Struct(s) => s.name@,
        },
    )
}

/// The code points of a string.
pub open spec fn code_points(s: Seq<char>) -> Seq<u32> {
    s.map_values(|c: char| c as u32)
}

/// Lexicographic order of code point sequences.
pub open spec fn key_le(a: Seq<u32>, b: Seq<u32>) -> bool
    decreases a.len(),
{
    if a.len() == 0 {
        true
    } else if b.len() == 0 {
        false
    } else if a[0] != b[0] {
        a[0] < b[0]
    } else {
        key_le(a.drop_first(), b.drop_first())
    }
}

pub open spec fn sorted_by_key(s: Seq<BindgenExportDescriptor>) -> bool {
    forall|i: int, j: int|
        0 <= i < j < s.len() ==> key_le(export_key(#[trigger] s[i]), export_key(#[trigger] s[j]))
}

pub open spec fn distinct_keys(s: Seq<BindgenExportDescriptor>) -> bool {
    forall|i: int, j: int|
        0 <= i < s.len() && 0 <= j < s.len() && i != j ==> export_key(#[trigger] s[i])
            != export_key(#[trigger] s[j])
}

pub proof fn lemma_key_le_total(a: Seq<u32>, b: Seq<u32>)
    ensures
        key_le(a, b) || key_le(b, a),
    decreases a.len(),
{
    if a.len() > 0 && b.len() > 0 && a[0] == b[0] {
        lemma_key_le_total(a.drop_first(), b.drop_first());
    }
}

pub proof fn lemma_key_le_transitive(a: Seq<u32>, b: Seq<u32>, c: Seq<u32>)
    requires
        key_le(a, b),
        key_le(b, c),
    ensures
        key_le(a, c),
    decreases a.len(),
{
    if a.len() > 0 && b.len() > 0 && c.len() > 0 && a[0] == b[0] && (b[0] as u32)
        == (c[0] as u32) {
        lemma_key_le_transitive(a.drop_first(), b.drop_first(), c.drop_first());
    }
}

pub proof fn lemma_key_le_reflexive(a: Seq<u32>)
    ensures
        key_le(a, a),
    decreases a.len(),
{
    if a.len() > 0 {
        lemma_key_le_reflexive(a.drop_first());
    }
}

pub proof fn lemma_key_le_antisymmetric(a: Seq<u32>, b: Seq<u32>)
    requires
        key_le(a, b),
        key_le(b, a),
    ensures
        a == b,
    decreases a.len(),
{
    if a.len() > 0 && b.len() > 0 {
        lemma_key_le_antisymmetric(a.drop_first(), b.drop_first());
        assert(a[0] == b[0]);
        assert(a =~= seq![a[0]] + a.drop_first());
        assert(b =~= seq![b[0]] + b.drop_first());
    } else {
        assert(a =~= b);
    }
}

fn key_le_exec(a: &str, b: &str) -> (r: bool)
    ensures
        r == key_le(code_points(a@), code_points(b@)),
{
    let alen = a.unicode_len();
    let blen = b.unicode_len();
    let mut i: usize = 0;
    assert(code_points(a@).skip(0) =~= code_points(a@));
    assert(code_points(b@).skip(0) =~= code_points(b@));
    while i < alen && i < blen
        invariant
            alen == a@.len(),
            blen == b@.len(),
            i <= alen,
            i <= blen,
            key_le(code_points(a@), code_points(b@)) == key_le(
                code_points(a@).skip(i as int),
                code_points(b@).skip(i as int),
            ),
        decreases alen - i,
    {
        let x = a.get_char(i);
        let y = b.get_char(i);
        assert(code_points(a@).skip(i as int)[0] == x as u32);
        assert(code_points(b@).skip(i as int)[0] == y as u32);
        if (x as u32) != (y as u32) {
            return (x as u32) < (y as u32);
        }
        assert(code_points(a@).skip(i as int).drop_first() =~= code_points(a@).skip(i + 1));
        assert(code_points(b@).skip(i as int).drop_first() =~= code_points(b@).skip(i + 1));
        i = i + 1;
    }
    if i == alen {
        assert(code_points(a@).skip(i as int).len() == 0);
    } else {
        assert(code_points(b@).skip(i as int).len() == 0);
    }
    i == alen
}

fn key_of(d: &BindgenExportDescriptor) -> (r: &str)
    ensures
        code_points(r@) == export_key(*d),
{
    match d {
        BindgenExportDescriptor::Function(f) => f.real_name.as_str(),
        BindgenExportDescriptor::Struct(s) => s.name.as_str(),
    }
}

/// The descriptors ordered by name; those with equal names keep their order.
pub fn sort_descriptors(descriptors: Vec<BindgenExportDescriptor>) -> (r: Vec<
    BindgenExportDescriptor,
>)
    ensures
        r@.to_multiset() == descriptors@.to_multiset(),
        sorted_by_key(r@),
        sorted_by_key(descriptors@) ==> r@ == descriptors@,
{
    let ghost orig = descriptors@;
    let mut input = descriptors;
    let mut r: Vec<BindgenExportDescriptor> = Vec::new();
    assert(r@.to_multiset() =~= Multiset::<BindgenExportDescriptor>::empty());
    while input.len() > 0
        invariant
            r@.to_multiset().add(input@.to_multiset()) == orig.to_multiset(),
            sorted_by_key(r@),
            r@.len() + input@.len() == orig.len(),
            sorted_by_key(orig) ==> r@ == orig.take(r@.len() as int) && input@ == orig.skip(
                r@.len() as int,
            ),
        decreases input@.len(),
    {
        let ghost before = input@;
        let x = input.remove(0);
        proof {
            assert(before.remove(0) == input@);
            assert(before.to_multiset().contains(x)) by {
                assert(before[0] == x);
            }
        }
        let mut p: usize = 0;
        let ghost consumed = r@.len() as int;
        proof {
            if sorted_by_key(orig) {
                assert(before == orig.skip(consumed));
                assert(x == before[0]);
                assert(x == orig[consumed]);
            }
        }
        while p < r.len() && key_le_exec(key_of(&r[p]), key_of(&x))
            invariant
                p <= r@.len(),
                consumed == r@.len(),
                sorted_by_key(orig) ==> r@ == orig.take(consumed) && x == orig[consumed],
                forall|k: int| 0 <= k < p ==> key_le(export_key(#[trigger] r@[k]), export_key(x)),
            decreases r@.len() - p,
        {
            p = p + 1;
        }
        let ghost old_r = r@;
        proof {
            if sorted_by_key(orig) && p < old_r.len() {
                assert(old_r[p as int] == orig[p as int]);
                assert(key_le(export_key(orig[p as int]), export_key(orig[consumed])));
            }
            if p < old_r.len() {
                lemma_key_le_total(export_key(old_r[p as int]), export_key(x));
            }
        }
        r.insert(p, x);
        proof {
            assert(r@ == old_r.insert(p as int, x));
            assert forall|i: int, j: int| 0 <= i < j < r@.len() implies key_le(
                export_key(#[trigger] r@[i]),
                export_key(#[trigger] r@[j]),
            ) by {
                if j == p {
                } else if i == p {
                    if p < old_r.len() {
                        assert(key_le(export_key(old_r[p as int]), export_key(old_r[j - 1])) || p
                            == j - 1);
                        if p < j - 1 {
                            lemma_key_le_transitive(
                                export_key(x),
                                export_key(old_r[p as int]),
                                export_key(old_r[j - 1]),
                            );
                        }
                    }
                } else if i < p && j > p {
                    assert(key_le(export_key(old_r[i]), export_key(old_r[j - 1])));
                } else if i > p {
                    assert(key_le(export_key(old_r[i - 1]), export_key(old_r[j - 1])));
                }
            }
            assert(r@.to_multiset().add(input@.to_multiset()) =~= orig.to_multiset());
            if sorted_by_key(orig) {
                assert(p == old_r.len());
                assert(r@ =~= orig.take(consumed + 1));
                assert(input@ =~= orig.skip(consumed + 1));
            }
        }
    }
    assert(input@.to_multiset() =~= Multiset::<BindgenExportDescriptor>::empty());
    proof {
        if sorted_by_key(orig) {
            assert(r@ =~= orig);
        }
    }
    assert(r@.to_multiset().add(input@.to_multiset()) =~= r@.to_multiset());
    r
}

proof fn lemma_sorted_unique(a: Seq<BindgenExportDescriptor>, b: Seq<BindgenExportDescriptor>)
    requires
        sorted_by_key(a),
        sorted_by_key(b),
        a.to_multiset() == b.to_multiset(),
        distinct_keys(a),
    ensures
        a == b,
    decreases a.len(),
{
    vstd::seq_lib::to_multiset_len(a);
    vstd::seq_lib::to_multiset_len(b);
    if a.len() == 0 {
        assert(b.len() == 0);
        assert(a =~= b);
    } else {
        vstd::seq_lib::to_multiset_contains(b, a[0]);
        vstd::seq_lib::to_multiset_contains(a, b[0]);
        assert(a.to_multiset().contains(a[0]));
        let j = choose|j: int| 0 <= j < b.len() && b[j] == a[0];
        assert(b.to_multiset().contains(b[0]));
        let i = choose|i: int| 0 <= i < a.len() && a[i] == b[0];
        lemma_key_le_reflexive(export_key(a[0]));
        lemma_key_le_reflexive(export_key(b[0]));
        if i != 0 {
            assert(key_le(export_key(a[0]), export_key(a[i])));
        }
        if j != 0 {
            assert(key_le(export_key(b[0]), export_key(b[j])));
        }
        lemma_key_le_antisymmetric(export_key(a[0]), export_key(b[0]));
        assert(i == 0);
        vstd::seq_lib::to_multiset_remove(a, 0);
        vstd::seq_lib::to_multiset_remove(b, 0);
        assert(a.remove(0) =~= a.drop_first());
        assert(b.remove(0) =~= b.drop_first());
        let a1 = a.drop_first();
        let b1 = b.drop_first();
        assert(sorted_by_key(a1)) by {
            assert forall|x: int, y: int| 0 <= x < y < a1.len() implies key_le(
                export_key(#[trigger] a1[x]),
                export_key(#[trigger] a1[y]),
            ) by {
                assert(a1[x] == a[x + 1] && a1[y] == a[y + 1]);
            }
        }
        assert(sorted_by_key(b1)) by {
            assert forall|x: int, y: int| 0 <= x < y < b1.len() implies key_le(
                export_key(#[trigger] b1[x]),
                export_key(#[trigger] b1[y]),
            ) by {
                assert(b1[x] == b[x + 1] && b1[y] == b[y + 1]);
            }
        }
        assert(distinct_keys(a1)) by {
            assert forall|x: int, y: int|
                0 <= x < a1.len() && 0 <= y < a1.len() && x != y implies export_key(
                #[trigger] a1[x],
            ) != export_key(#[trigger] a1[y]) by {
                assert(a1[x] == a[x + 1] && a1[y] == a[y + 1]);
            }
        }
        lemma_sorted_unique(a1, b1);
        assert(a =~= b) by {
            assert forall|k: int| 0 <= k < a.len() implies a[k] == b[k] by {
                if k > 0 {
                    assert(a[k] == a1[k - 1]);
                    assert(b[k] == b1[k - 1]);
                }
            }
        }
    }
}

/// Sorting is order-stable: two inputs that hold the same descriptors with
/// distinct names, in whatever order they were found, sort to the same
/// sequence, and an input that is already sorted sorts to itself.
pub proof fn lemma_sort_order_stable(
    a: Seq<BindgenExportDescriptor>,
    b: Seq<BindgenExportDescriptor>,
    sorted_a: Seq<BindgenExportDescriptor>,
    sorted_b: Seq<BindgenExportDescriptor>,
)
    requires
        a.to_multiset() == b.to_multiset(),
        distinct_keys(a),
        sorted_by_key(sorted_a),
        sorted_a.to_multiset() == a.to_multiset(),
        sorted_by_key(sorted_b),
        sorted_b.to_multiset() == b.to_multiset(),
    ensures
        sorted_a == sorted_b,
        sorted_by_key(a) ==> sorted_a == a,
{
    lemma_distinct_keys_by_multiset(a, sorted_a);
    lemma_sorted_unique(sorted_a, sorted_b);
    if sorted_by_key(a) {
        lemma_sorted_unique(sorted_a, a);
    }
}

proof fn lemma_distinct_keys_by_multiset(a: Seq<BindgenExportDescriptor>, b: Seq<BindgenExportDescriptor>)
    requires
        distinct_keys(a),
        a.to_multiset() == b.to_multiset(),
    ensures
        distinct_keys(b),
{
    assert forall|x: int, y: int|
        0 <= x < b.len() && 0 <= y < b.len() && x != y implies export_key(#[trigger] b[x])
        != export_key(#[trigger] b[y]) by {
        if export_key(b[x]) == export_key(b[y]) {
            vstd::seq_lib::to_multiset_contains(a, b[x]);
            vstd::seq_lib::to_multiset_contains(b, b[x]);
            vstd::seq_lib::to_multiset_contains(a, b[y]);
            vstd::seq_lib::to_multiset_contains(b, b[y]);
            assert(b.to_multiset().contains(b[x]));
            assert(b.to_multiset().contains(b[y]));
            let i = choose|i: int| 0 <= i < a.len() && a[i] == b[x];
            let j = choose|j: int| 0 <= j < a.len() && a[j] == b[y];
            assert(i == j);
            assert(b[x] == b[y]);
            // Equal elements at two places make the count in b at least two,
            // while a holds each element once.
            lemma_count_two(b, x, y);
            lemma_distinct_count_one(a, i);
            assert(false);
        }
    }
}

proof fn lemma_count_two(s: Seq<BindgenExportDescriptor>, x: int, y: int)
    requires
        0 <= x < s.len(),
        0 <= y < s.len(),
        x != y,
        s[x] == s[y],
    ensures
        s.to_multiset().count(s[x]) >= 2,
{
    let (lo, hi) = if x < y {
        (x, y)
    } else {
        (y, x)
    };
    let e = s[x];
    let t = s.remove(hi);
    vstd::seq_lib::to_multiset_remove(s, hi);
    assert(t[lo] == e);
    vstd::seq_lib::to_multiset_contains(t, e);
    assert(t.to_multiset().contains(e));
}

proof fn lemma_distinct_count_one(s: Seq<BindgenExportDescriptor>, i: int)
    requires
        0 <= i < s.len(),
        distinct_keys(s),
    ensures
        s.to_multiset().count(s[i]) == 1,
{
    let e = s[i];
    let t = s.remove(i);
    vstd::seq_lib::to_multiset_remove(s, i);
    vstd::seq_lib::to_multiset_contains(t, e);
    if t.to_multiset().contains(e) {
        let k = choose|k: int| 0 <= k < t.len() && t[k] == e;
        let kk = if k < i {
            k
        } else {
            k + 1
        };
        assert(s[kk] == e);
        assert(false);
    }
    vstd::seq_lib::to_multiset_contains(s, e);
}

} // verus!
