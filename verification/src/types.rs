use vstd::prelude::*;

verus! {

/// A symbol: the index of a string in the compiler's string interner.
pub type Sym = u32;

/// A reference to an instruction of the AIR being produced.
pub type AirRef = u32;

/// A source location: the file it is in and a byte range.
#[derive(Clone, Copy, Debug, PartialEq, Eq, Structural, Hash)]
pub struct Span {
    pub file_id: u32,
    pub start: u32,
    pub end: u32,
}

impl Span {
    pub fn new(file_id: u32, start: u32, end: u32) -> (s: Span)
        ensures
            s == (Span { file_id, start, end }),
    {
        Span { file_id, start, end }
    }
}

/// The type of a value.
#[derive(Clone, Copy, Debug, PartialEq, Eq, Structural, Hash)]
pub enum Type {
    I8,
    I16,
    I32,
    I64,
    U8,
    U16,
    U32,
    U64,
    Bool,
    Unit,
    /// The type of expressions that never produce a value (`return`, `break`).
    Never,
    /// The type given to an expression whose analysis already failed.
    Error,
    /// The type of types used as values at compile time.
    ComptimeType,
    Struct(u32),
    Enum(u32),
    Array(u32),
    Module(u32),
    /// A raw pointer through which the pointee can only be read.
    PtrConst(u32),
    /// A raw pointer through which the pointee can be read and written.
    PtrMut(u32),
}


impl Type {
    /// An integer type.
    pub open spec fn spec_is_integer(self) -> bool {
        self is I8 || self is I16 || self is I32 || self is I64 || self is U8 || self is U16 || self is U32
            || self is U64
    }

    /// A signed integer type.
    pub open spec fn spec_is_signed(self) -> bool {
        self is I8 || self is I16 || self is I32 || self is I64
    }

    /// An unsigned integer type.
    pub open spec fn spec_is_unsigned(self) -> bool {
        self is U8 || self is U16 || self is U32 || self is U64
    }

    /// The largest value of an integer type.
    pub open spec fn int_max(self) -> int {
        match self {
            Type::I8 => i8::MAX as int,
            Type::I16 => i16::MAX as int,
            Type::I32 => i32::MAX as int,
            Type::I64 => i64::MAX as int,
            Type::U8 => u8::MAX as int,
            Type::U16 => u16::MAX as int,
            Type::U32 => u32::MAX as int,
            Type::U64 => u64::MAX as int,
            _ => 0,
        }
    }

    /// The smallest value of an integer type.
    pub open spec fn int_min(self) -> int {
        match self {
            Type::I8 => i8::MIN as int,
            Type::I16 => i16::MIN as int,
            Type::I32 => i32::MIN as int,
            Type::I64 => i64::MIN as int,
            _ => 0,
        }
    }

    /// An integer literal of value `value` has a value of this type.
    pub open spec fn literal_fits_spec(self, value: u64) -> bool {
        self.spec_is_integer() && value <= self.int_max()
    }

    /// The negation of an integer literal of value `value` has a value of this signed type.
    pub open spec fn negated_literal_fits_spec(self, value: u64) -> bool {
        self.spec_is_signed() && -(value as int) >= self.int_min()
    }

    /// A value of this type can stand where `target` is expected: the types
    /// are the same, or this is the type of expressions that never produce a
    /// value.
    pub open spec fn coerces_to(self, target: Type) -> bool {
        self == target || self is Never
    }

    /// Whether this is an integer type.
    pub fn is_integer(&self) -> (r: bool)
        ensures
            r == self.spec_is_integer(),
    {
        match self {
            Type::I8 | Type::I16 | Type::I32 | Type::I64 | Type::U8 | Type::U16 | Type::U32 | Type::U64 => true,
            _ => false,
        }
    }

    /// Whether this is a signed integer type.
    pub fn is_signed(&self) -> (r: bool)
        ensures
            r == self.spec_is_signed(),
    {
        match self {
            Type::I8 | Type::I16 | Type::I32 | Type::I64 => true,
            _ => false,
        }
    }

    /// Whether this is an unsigned integer type.
    pub fn is_unsigned(&self) -> (r: bool)
        ensures
            r == self.spec_is_unsigned(),
    {
        match self {
            Type::U8 | Type::U16 | Type::U32 | Type::U64 => true,
            _ => false,
        }
    }

    /// Whether this is the type of an expression whose analysis failed.
    pub fn is_error(&self) -> (r: bool)
        ensures
            r == (*self is Error),
    {
        match self {
            Type::Error => true,
            _ => false,
        }
    }

    /// Whether this is the type of expressions that never produce a value.
    pub fn is_never(&self) -> (r: bool)
        ensures
            r == (*self is Never),
    {
        match self {
            Type::Never => true,
            _ => false,
        }
    }

    /// Whether a value of this type can stand where `target` is expected.
    pub fn can_coerce_to(&self, target: &Type) -> (r: bool)
        ensures
            r == self.coerces_to(*target),
    {
        *self == *target || self.is_never()
    }

    /// Whether this is a struct type.
    pub fn is_struct(&self) -> (r: bool)
        ensures
            r == (*self is Struct),
    {
        match self {
            Type::Struct(_) => true,
            _ => false,
        }
    }

    /// Whether an integer literal of this value has a value of this type.
    /// Only integer types hold integer literals.
    pub fn literal_fits(&self, value: u64) -> (r: bool)
        ensures
            r == self.literal_fits_spec(value),
    {
        match self {
            Type::I8 => value <= i8::MAX as u64,
            Type::I16 => value <= i16::MAX as u64,
            Type::I32 => value <= i32::MAX as u64,
            Type::I64 => value <= i64::MAX as u64,
            Type::U8 => value <= u8::MAX as u64,
            Type::U16 => value <= u16::MAX as u64,
            Type::U32 => value <= u32::MAX as u64,
            Type::U64 => true,
            _ => false,
        }
    }

    /// Whether the negation of an integer literal of this value has a value
    /// of this signed type.
    pub fn negated_literal_fits(&self, value: u64) -> (r: bool)
        ensures
            r == self.negated_literal_fits_spec(value),
    {
        match self {
            Type::I8 => value <= 128,
            Type::I16 => value <= 32768,
            Type::I32 => value <= 2147483648,
            Type::I64 => value <= 9223372036854775808,
            _ => false,
        }
    }
}

/// The name of a type, as error messages show it.
pub open spec fn name_of_type(t: Type) -> Seq<char> {
    match t {
        Type::I8 => "i8"@,
        Type::I16 => "i16"@,
        Type::I32 => "i32"@,
        Type::I64 => "i64"@,
        Type::U8 => "u8"@,
        Type::U16 => "u16"@,
        Type::U32 => "u32"@,
        Type::U64 => "u64"@,
        Type::Bool => "bool"@,
        Type::Unit => "()"@,
        Type::Never => "!"@,
        Type::Error => "<error>"@,
        Type::ComptimeType => "type"@,
        Type::Struct(_) => "<struct>"@,
        Type::Enum(_) => "<enum>"@,
        Type::Array(_) => "<array>"@,
        Type::Module(_) => "<module>"@,
        Type::PtrConst(_) => "<ptr const>"@,
        Type::PtrMut(_) => "<ptr mut>"@,
    }
}

impl Type {
    /// The name of this type, as error messages show it.
    pub fn name(&self) -> (r: String)
        ensures
            r@ == name_of_type(*self),
    {
        match self {
            Type::I8 => "i8".to_string(),
            Type::I16 => "i16".to_string(),
            Type::I32 => "i32".to_string(),
            Type::I64 => "i64".to_string(),
            Type::U8 => "u8".to_string(),
            Type::U16 => "u16".to_string(),
            Type::U32 => "u32".to_string(),
            Type::U64 => "u64".to_string(),
            Type::Bool => "bool".to_string(),
            Type::Unit => "()".to_string(),
            Type::Never => "!".to_string(),
            Type::Error => "<error>".to_string(),
            Type::ComptimeType => "type".to_string(),
            Type::Struct(_) => "<struct>".to_string(),
            Type::Enum(_) => "<enum>".to_string(),
            Type::Array(_) => "<array>".to_string(),
            Type::Module(_) => "<module>".to_string(),
            Type::PtrConst(_) => "<ptr const>".to_string(),
            Type::PtrMut(_) => "<ptr mut>".to_string(),
        }
    }
}

/// A field of a struct.
#[derive(Debug)]
pub struct StructField {
    pub name: String,
    pub ty: Type,
}

/// The definition of a struct type.
#[derive(Debug)]
pub struct StructDef {
    pub name: String,
    pub fields: Vec<StructField>,
    /// All fields are Copy and the struct was declared `@copy`.
    pub is_copy: bool,
    pub is_handle: bool,
    /// Values of the struct must be consumed explicitly.
    pub is_linear: bool,
    /// Name of the destructor function, if any.
    pub destructor: Option<String>,
    /// A type the compiler provides (such as `String`).
    pub is_builtin: bool,
    pub is_pub: bool,
    /// The file the struct was declared in.
    pub file_id: u32,
}

/// The definition of an enum type.
#[derive(Debug)]
pub struct EnumDef {
    pub name: String,
    pub variants: Vec<String>,
    pub is_pub: bool,
    pub file_id: u32,
}

/// The definition of an array type.
#[derive(Clone, Copy, Debug, PartialEq, Eq, Structural)]
pub struct ArrayDef {
    pub elem: Type,
    pub len: u64,
    /// Whether the element type is Copy.
    pub is_copy: bool,
}

/// The abstract content of a struct field: its name and type.
pub open spec fn field_view(f: StructField) -> (Seq<char>, Type) {
    (f.name@, f.ty)
}

/// The abstract fields of a struct.
pub open spec fn fields_view(fs: Seq<StructField>) -> Seq<(Seq<char>, Type)> {
    fs.map_values(|f: StructField| field_view(f))
}

/// The registry of struct, enum and array types, indexed by id.
#[derive(Debug)]
pub struct TypePool {
    pub structs: Vec<StructDef>,
    pub enums: Vec<EnumDef>,
    pub arrays: Vec<ArrayDef>,
    /// The pointee of each `ptr const` type, by id.
    pub ptr_consts: Vec<Type>,
    /// The pointee of each `ptr mut` type, by id.
    pub ptr_muts: Vec<Type>,
}

impl TypePool {
    /// An empty pool.
    pub fn new() -> (r: Self)
        ensures
            r.structs@.len() == 0,
            r.enums@.len() == 0,
            r.arrays@.len() == 0,
            r.ptr_consts@.len() == 0,
            r.ptr_muts@.len() == 0,
    {
        TypePool {
            structs: Vec::new(),
            enums: Vec::new(),
            arrays: Vec::new(),
            ptr_consts: Vec::new(),
            ptr_muts: Vec::new(),
        }
    }

    /// The pointee of a pointer type known to the pool.
    pub open spec fn pointee(&self, ty: Type) -> Option<Type> {
        match ty {
            Type::PtrConst(id) => if id < self.ptr_consts@.len() {
                Some(self.ptr_consts@[id as int])
            } else {
                None
            },
            Type::PtrMut(id) => if id < self.ptr_muts@.len() {
                Some(self.ptr_muts@[id as int])
            } else {
                None
            },
            _ => None,
        }
    }

    /// The pointer type to `pointee`, mutable or not, created if it is not yet in the pool.
    pub fn intern_ptr(&mut self, pointee: Type, is_mut: bool) -> (t: Type)
        requires
            is_mut ==> old(self).ptr_muts@.len() < u32::MAX,
            !is_mut ==> old(self).ptr_consts@.len() < u32::MAX,
        ensures
            if is_mut { t is PtrMut } else { t is PtrConst },
            final(self).pointee(t) == Some(pointee),
            final(self).structs == old(self).structs,
            final(self).enums == old(self).enums,
            final(self).arrays == old(self).arrays,
            is_mut ==> final(self).ptr_consts == old(self).ptr_consts,
            !is_mut ==> final(self).ptr_muts == old(self).ptr_muts,
            // An existing pointer type is reused; otherwise one is appended.
            is_mut ==> (if old(self).ptr_muts@.contains(pointee) {
                final(self).ptr_muts == old(self).ptr_muts
            } else {
                final(self).ptr_muts@ == old(self).ptr_muts@.push(pointee)
            }),
            !is_mut ==> (if old(self).ptr_consts@.contains(pointee) {
                final(self).ptr_consts == old(self).ptr_consts
            } else {
                final(self).ptr_consts@ == old(self).ptr_consts@.push(pointee)
            }),
    {
        let table = if is_mut { &self.ptr_muts } else { &self.ptr_consts };
        let n = table.len();
        let mut i: usize = 0;
        while i < n
            invariant
                i <= n,
                n == table@.len(),
                n < u32::MAX,
                is_mut ==> table@ == old(self).ptr_muts@,
                !is_mut ==> table@ == old(self).ptr_consts@,
                forall|j: int| 0 <= j < i ==> table@[j] != pointee,
            decreases n - i,
        {
            if table[i] == pointee {
                assert(table@[i as int] == pointee);
                assert(table@.contains(pointee));
                return if is_mut { Type::PtrMut(i as u32) } else { Type::PtrConst(i as u32) };
            }
            i = i + 1;
        }
        assert(!table@.contains(pointee));
        if is_mut {
            self.ptr_muts.push(pointee);
            assert(self.ptr_muts@[n as int] == pointee);
            Type::PtrMut(n as u32)
        } else {
            self.ptr_consts.push(pointee);
            assert(self.ptr_consts@[n as int] == pointee);
            Type::PtrConst(n as u32)
        }
    }

    /// Total number of types in the pool.
    pub open spec fn spec_len(&self) -> nat {
        self.structs@.len() + self.enums@.len() + self.arrays@.len()
    }

    /// Values of type `ty` are copied rather than moved.
    pub open spec fn is_copy(&self, ty: Type) -> bool {
        match ty {
            Type::Struct(id) => id < self.structs@.len() && self.structs@[id as int].is_copy,
            Type::Array(id) => id < self.arrays@.len() && self.arrays@[id as int].is_copy,
            _ => true,
        }
    }

    /// Values of type `ty` must be consumed explicitly.
    pub open spec fn is_linear(&self, ty: Type) -> bool {
        match ty {
            Type::Struct(id) => id < self.structs@.len() && self.structs@[id as int].is_linear,
            _ => false,
        }
    }

    /// Whether values of `ty` are copied rather than moved.
    pub fn is_type_copy(&self, ty: Type) -> (r: bool)
        ensures
            r == self.is_copy(ty),
    {
        match ty {
            Type::Struct(id) => (id as usize) < self.structs.len() && self.structs[id as usize].is_copy,
            Type::Array(id) => (id as usize) < self.arrays.len() && self.arrays[id as usize].is_copy,
            _ => true,
        }
    }

    /// Whether values of `ty` must be consumed explicitly.
    pub fn is_type_linear(&self, ty: Type) -> (r: bool)
        ensures
            r == self.is_linear(ty),
    {
        match ty {
            Type::Struct(id) => (id as usize) < self.structs.len() && self.structs[id as usize].is_linear,
            _ => false,
        }
    }
}

/// The integer types and their ranges: each integer type is signed or
/// unsigned and not both; an unsigned type of `n` bits holds `0` to
/// `2^n - 1`, a signed one `-2^(n-1)` to `2^(n-1) - 1`; a literal fits a
/// type when it is at most its largest value, and a negated literal fits a
/// signed type when it is at most one more than that.
pub proof fn law_integer_ranges(t: Type, value: u64)
    ensures
        t.spec_is_integer() <==> (t.spec_is_signed() || t.spec_is_unsigned()),
        !(t.spec_is_signed() && t.spec_is_unsigned()),
        t.spec_is_signed() ==> t.int_min() == -(t.int_max() + 1),
        t.spec_is_unsigned() ==> t.int_min() == 0,
        t is U8 ==> t.int_max() == 0xFF,
        t is U16 ==> t.int_max() == 0xFFFF,
        t is U32 ==> t.int_max() == 0xFFFF_FFFF,
        t is U64 ==> t.int_max() == 0xFFFF_FFFF_FFFF_FFFF,
        t is I8 ==> t.int_max() == 0x7F,
        t is I16 ==> t.int_max() == 0x7FFF,
        t is I32 ==> t.int_max() == 0x7FFF_FFFF,
        t is I64 ==> t.int_max() == 0x7FFF_FFFF_FFFF_FFFF,
        t.literal_fits_spec(value) <==> (t.spec_is_integer() && value <= t.int_max()),
        t.negated_literal_fits_spec(value) <==> (t.spec_is_signed() && value <= t.int_max() + 1),
{
}

} // verus!
