//! Garbage-collection-ready types with native semantics.
//!
//! Types marked for GC management use garbage collection when compiled for
//! WebAssembly; on native targets, which this library is built for, they
//! behave like the standard library types they wrap.
use vstd::prelude::*;
use vstd::string::StringSliceAdditionalSpecFns;

verus! {

/// A type whose values the garbage collector can mark, trace and account.
pub trait GcManaged {
    /// Marks this object and all reachable objects.
    fn gc_mark(&self);

    /// Traces all references from this object.
    fn gc_trace(&self);

    /// The size of this object for memory accounting.
    fn gc_size(&self) -> usize;
}

impl GcManaged for u8 {
    fn gc_mark(&self) {
    }

    fn gc_trace(&self) {
    }

    fn gc_size(&self) -> (r: usize)
        ensures
            r == 1,
    {
        proof {
            broadcast use vstd::layout::layout_of_primitives;
        }
        core::mem::size_of::<u8>()
    }
}

impl GcManaged for u32 {
    fn gc_mark(&self) {
    }

    fn gc_trace(&self) {
    }

    fn gc_size(&self) -> (r: usize)
        ensures
            r == 4,
    {
        proof {
            broadcast use vstd::layout::layout_of_primitives;
        }
        core::mem::size_of::<u32>()
    }
}

impl GcManaged for i32 {
    fn gc_mark(&self) {
    }

    fn gc_trace(&self) {
    }

    fn gc_size(&self) -> (r: usize)
        ensures
            r == 4,
    {
        proof {
            broadcast use vstd::layout::layout_of_primitives;
        }
        core::mem::size_of::<i32>()
    }
}

/// The accounted size of `n` elements of `s` bytes each, saturated at the
/// largest `usize`.
pub open spec fn elements_size(n: nat, s: nat) -> nat {
    if n * s <= usize::MAX {
        n * s
    } else {
        usize::MAX as nat
    }
}

impl<T: GcManaged> GcManaged for Vec<T> {
    fn gc_mark(&self) {
        let mut i: usize = 0;
        while i < self.len()
            invariant
                0 <= i <= self@.len(),
            decreases self@.len() - i,
        {
            self[i].gc_mark();
            i = i + 1;
        }
    }

    fn gc_trace(&self) {
        let mut i: usize = 0;
        while i < self.len()
            invariant
                0 <= i <= self@.len(),
            decreases self@.len() - i,
        {
            self[i].gc_trace();
            i = i + 1;
        }
    }

    fn gc_size(&self) -> (r: usize)
        ensures
            r == elements_size(self@.len(), vstd::layout::size_of::<T>()),
    {
        let s = core::mem::size_of::<T>();
        match self.len().checked_mul(s) {
            Some(p) => p,
            None => usize::MAX,
        }
    }
}

/// A GC-ready string; on native targets a standard string.
pub struct GcString {
    inner: String,
}

impl GcString {
    /// The characters of the string.
    pub closed spec fn view(&self) -> Seq<char> {
        self.inner@
    }

    /// The length of the string in bytes (UTF-8).
    pub closed spec fn byte_len(&self) -> nat {
        vstd::utf8::encode_utf8(self.inner@).len()
    }

    /// An empty string.
    pub fn new() -> (r: GcString)
        ensures
            r.view() == Seq::<char>::empty(),
            r.byte_len() == 0,
    {
        let inner = String::new();
        proof {
            assert(vstd::utf8::encode_utf8(Seq::<char>::empty()) =~= Seq::<u8>::empty());
        }
        GcString { inner }
    }

    /// A string holding the characters of `s`.
    pub fn from_str(s: &str) -> (r: GcString)
        ensures
            r.view() == s@,
            r.byte_len() == s.spec_bytes().len(),
    {
        GcString { inner: s.to_owned() }
    }

    /// The length in bytes.
    pub fn len(&self) -> (r: usize)
        ensures
            r == self.byte_len(),
    {
        self.inner.as_str().as_bytes().len()
    }

    /// Whether the string is empty.
    pub fn is_empty(&self) -> (r: bool)
        ensures
            r == (self.byte_len() == 0),
    {
        self.len() == 0
    }
}

impl GcManaged for GcString {
    fn gc_mark(&self) {
    }

    fn gc_trace(&self) {
    }

    fn gc_size(&self) -> (r: usize)
        ensures
            r == self.byte_len(),
    {
        self.inner.as_str().as_bytes().len()
    }
}

/// A GC-ready array; on native targets a vector with its length.
pub struct GcArray<T> {
    elements: Vec<T>,
    len: usize,
}

impl<T> GcArray<T> {
    /// The elements, in order.
    pub closed spec fn view(&self) -> Seq<T> {
        self.elements@
    }

    /// The recorded length.
    pub closed spec fn recorded_len(&self) -> nat {
        self.len as nat
    }

    /// The recorded length matches the elements.
    #[verifier::type_invariant]
    spec fn wf(&self) -> bool {
        self.len == self.elements@.len()
    }

    /// An empty array.
    pub fn new() -> (r: GcArray<T>)
        ensures
            r.view() == Seq::<T>::empty(),
            r.recorded_len() == 0,
    {
        GcArray { elements: Vec::new(), len: 0 }
    }

    /// Appends an element.
    pub fn push(&mut self, value: T)
        ensures
            final(self).view() == old(self).view().push(value),
            final(self).recorded_len() == final(self).view().len(),
    {
        let mut taken = GcArray { elements: Vec::new(), len: 0 };
        std::mem::swap(&mut taken, self);
        let GcArray { mut elements, len: _ } = taken;
        elements.push(value);
        let n = elements.len();
        *self = GcArray { elements, len: n };
    }

    /// The number of elements.
    pub fn len(&self) -> (r: usize)
        ensures
            r == self.view().len(),
            r == self.recorded_len(),
    {
        proof {
            use_type_invariant(self);
        }
        self.len
    }

    /// The element at `index`, which must be in bounds.
    pub fn get(&self, index: usize) -> (r: &T)
        requires
            index < self.view().len(),
        ensures
            *r == self.view()[index as int],
    {
        &self.elements[index]
    }
}

impl<T: GcManaged> GcManaged for GcArray<T> {
    fn gc_mark(&self) {
        self.elements.gc_mark();
    }

    fn gc_trace(&self) {
        self.elements.gc_trace();
    }

    fn gc_size(&self) -> (r: usize)
        ensures
            r == elements_size(self.view().len(), vstd::layout::size_of::<T>()),
    {
        proof {
            use_type_invariant(self);
        }
        let s = core::mem::size_of::<T>();
        match self.len.checked_mul(s) {
            Some(p) => p,
            None => usize::MAX,
        }
    }
}

/// A GC-ready box; on native targets a standard box.
pub struct GcBox<T> {
    ptr: Box<T>,
}

impl<T> GcBox<T> {
    /// The boxed value.
    pub closed spec fn view(&self) -> T {
        *self.ptr
    }

    /// Boxes a value.
    pub fn new(value: T) -> (r: GcBox<T>)
        ensures
            r.view() == value,
    {
        GcBox { ptr: Box::new(value) }
    }

    /// The boxed value.
    pub fn get(&self) -> (r: &T)
        ensures
            *r == self.view(),
    {
        &self.ptr
    }
}

impl<T: GcManaged> GcManaged for GcBox<T> {
    fn gc_mark(&self) {
    }

    fn gc_trace(&self) {
        self.ptr.gc_trace();
    }

    fn gc_size(&self) -> (r: usize)
        ensures
            r == vstd::layout::size_of::<T>(),
    {
        core::mem::size_of::<T>()
    }
}

} // verus!
