//! Type erasure for references, on machine words.
//!
//! A reference to a sized value is one machine word, its address. A reference
//! to a trait object is two words, the address and a descriptor, and nothing
//! fixes which of the two comes first. The order is found by a probe: the
//! same reference is taken apart a second time after its address has been
//! advanced by one byte, and the word that moved is the address.
//!
//! An [`AnyPtr`] keeps the address, the descriptor where there is one, and in
//! the descriptor's low bit the position that the descriptor had, so that the
//! words can be put back in their first order.

use vstd::prelude::*;

verus! {

/// The machine words of a reference, in the order in which they lie in memory.
#[derive(Copy, Clone, Debug, PartialEq, Eq, Structural)]
pub enum PtrWords {
    /// A one-word reference: the address.
    Thin(usize),
    /// A two-word reference: an address and a descriptor, in either order.
    Fat(usize, usize),
}

/// What an erased reference stands for.
pub enum ErasedRef {
    /// A reference to a sized value.
    Thin { addr: usize },
    /// A reference to a trait object. `descriptor_first` records whether the
    /// descriptor was the first of the two words.
    Fat { addr: usize, descriptor: usize, descriptor_first: bool },
}

/// The number of bytes in a machine word.
pub open spec fn word_bytes() -> int {
    usize::BITS as int / 8
}

/// `word` with one added, wrapping round at the end of the address space.
pub open spec fn next_byte(word: usize) -> usize {
    if word == usize::MAX {
        0
    } else {
        (word + 1) as usize
    }
}

/// A descriptor is never null and always aligned to a machine word.
pub open spec fn valid_descriptor(word: usize) -> bool {
    word != 0 && word as int % word_bytes() == 0
}

/// `shifted` holds the words of the reference `ptr` after its address was
/// advanced by one byte, the address is not null, and where `ptr` has a
/// descriptor, the descriptor is valid.
pub open spec fn valid_probe(ptr: PtrWords, shifted: PtrWords) -> bool {
    match (ptr, shifted) {
        (PtrWords::Thin(addr), _) => addr != 0,
        (PtrWords::Fat(w0, w1), PtrWords::Fat(s0, s1)) => {
            ||| (w0 == s0 && s1 == next_byte(w1) && w1 != 0 && valid_descriptor(w0))
            ||| (w1 == s1 && s0 == next_byte(w0) && w0 != 0 && valid_descriptor(w1))
        },
        (PtrWords::Fat(_, _), PtrWords::Thin(_)) => false,
    }
}

/// What the probe finds: the word that stayed is the descriptor, the other
/// one the address.
pub open spec fn probed(ptr: PtrWords, shifted: PtrWords) -> ErasedRef {
    match (ptr, shifted) {
        (PtrWords::Thin(addr), _) => ErasedRef::Thin { addr },
        (PtrWords::Fat(w0, w1), PtrWords::Fat(s0, _)) => {
            if w0 == s0 {
                ErasedRef::Fat { addr: w1, descriptor: w0, descriptor_first: true }
            } else {
                ErasedRef::Fat { addr: w0, descriptor: w1, descriptor_first: false }
            }
        },
        (PtrWords::Fat(w0, w1), PtrWords::Thin(_)) => {
            ErasedRef::Fat { addr: w1, descriptor: w0, descriptor_first: true }
        },
    }
}

impl ErasedRef {
    /// The address of the value that is referred to.
    pub open spec fn address(self) -> usize {
        match self {
            ErasedRef::Thin { addr } => addr,
            ErasedRef::Fat { addr, .. } => addr,
        }
    }

    /// The words of the reference, in their first order.
    pub open spec fn words(self) -> PtrWords {
        match self {
            ErasedRef::Thin { addr } => PtrWords::Thin(addr),
            ErasedRef::Fat { addr, descriptor, descriptor_first } => {
                if descriptor_first {
                    PtrWords::Fat(descriptor, addr)
                } else {
                    PtrWords::Fat(addr, descriptor)
                }
            },
        }
    }

    /// The address is not null, and neither is the descriptor, which is
    /// aligned to a machine word.
    pub open spec fn well_formed(self) -> bool {
        match self {
            ErasedRef::Thin { addr } => addr != 0,
            ErasedRef::Fat { addr, descriptor, .. } => addr != 0 && valid_descriptor(descriptor),
        }
    }
}

/// A type-erased reference to a sized value or to a trait object.
#[derive(Copy, Clone, Debug)]
pub struct AnyPtr {
    /// The address of the value.
    data: usize,
    /// The descriptor of a two-word reference, with its low bit set when the
    /// descriptor was the second word. `None` for a one-word reference.
    meta: Option<usize>,
}

impl View for AnyPtr {
    type V = ErasedRef;

    closed spec fn view(&self) -> ErasedRef {
        match self.meta {
            None => ErasedRef::Thin { addr: self.data },
            Some(m) => {
                if m % 2 == 0 {
                    ErasedRef::Fat { addr: self.data, descriptor: m, descriptor_first: true }
                } else {
                    ErasedRef::Fat {
                        addr: self.data,
                        descriptor: (m - 1) as usize,
                        descriptor_first: false,
                    }
                }
            },
        }
    }
}

impl AnyPtr {
    #[verifier::type_invariant]
    closed spec fn inv(self) -> bool {
        self@.well_formed()
    }

    /// Erases a reference, given its words and the words of the probe, where
    /// the two fit together; answers `None` where they do not.
    pub fn probe(ptr: PtrWords, shifted: PtrWords) -> (erased: Option<AnyPtr>)
        ensures
            erased is Some <==> valid_probe(ptr, shifted),
            erased is Some ==> erased->0@ == probed(ptr, shifted),
    {
        if is_valid_probe(ptr, shifted) {
            Some(AnyPtr::from_mut(ptr, shifted))
        } else {
            None
        }
    }

    /// Erases a shared reference, given its words and the words of the probe.
    pub fn from(ptr: PtrWords, shifted: PtrWords) -> (erased: AnyPtr)
        requires
            valid_probe(ptr, shifted),
        ensures
            erased@ == probed(ptr, shifted),
            erased@.well_formed(),
            erased@.words() == ptr,
    {
        AnyPtr::from_mut(ptr, shifted)
    }

    /// Erases an exclusive reference, given its words and the words of the
    /// probe.
    pub fn from_mut(ptr: PtrWords, shifted: PtrWords) -> (erased: AnyPtr)
        requires
            valid_probe(ptr, shifted),
        ensures
            erased@ == probed(ptr, shifted),
            erased@.well_formed(),
            erased@.words() == ptr,
    {
        proof {
            if let PtrWords::Fat(w0, w1) = ptr {
                if valid_descriptor(w0) {
                    lemma_low_bit_free(w0);
                }
                if valid_descriptor(w1) {
                    lemma_low_bit_free(w1);
                }
            }
        }
        match (ptr, shifted) {
            (PtrWords::Thin(addr), _) => AnyPtr { data: addr, meta: None },
            (PtrWords::Fat(w0, w1), PtrWords::Fat(s0, _)) => {
                if w0 == s0 {
                    // The descriptor came first: it is kept as it is.
                    AnyPtr { data: w1, meta: Some(w0) }
                } else {
                    // The descriptor came second: its low bit is set.
                    AnyPtr { data: w0, meta: Some(w1 + 1) }
                }
            },
            (PtrWords::Fat(_, _), PtrWords::Thin(_)) => vstd::pervasive::unreached(),
        }
    }

    /// The words of the reference that was erased, for a target whose
    /// references have `target_words` machine words. Answers `None` where
    /// the erased reference has another number of words than the target.
    pub fn to_ptr_for(self, target_words: usize) -> (words: Option<PtrWords>)
        ensures
            words is Some <==> (target_words == 2 && self@ is Fat) || (target_words == 1
                && self@ is Thin),
            words is Some ==> words->0 == self@.words(),
            self@.well_formed(),
    {
        let words = self.to_ptr();
        let fits = match words {
            PtrWords::Thin(_) => target_words == 1,
            PtrWords::Fat(_, _) => target_words == 2,
        };
        if fits {
            Some(words)
        } else {
            None
        }
    }

    /// The words of the reference that was erased, in their first order.
    pub fn to_ptr(self) -> (words: PtrWords)
        ensures
            words == self@.words(),
            self@.well_formed(),
    {
        proof {
            use_type_invariant(self);
        }
        match self.meta {
            None => PtrWords::Thin(self.data),
            Some(m) => {
                if m % 2 == 0 {
                    PtrWords::Fat(m, self.data)
                } else {
                    PtrWords::Fat(self.data, m - 1)
                }
            },
        }
    }
}

/// Whether `word` can be a descriptor.
fn is_valid_descriptor(word: usize) -> (valid: bool)
    ensures
        valid == valid_descriptor(word),
{
    let bytes: usize = (usize::BITS / 8) as usize;
    word != 0 && word % bytes == 0
}

/// Whether `shifted` can be the probe of `ptr`.
fn is_valid_probe(ptr: PtrWords, shifted: PtrWords) -> (valid: bool)
    ensures
        valid == valid_probe(ptr, shifted),
{
    match (ptr, shifted) {
        (PtrWords::Thin(addr), _) => addr != 0,
        (PtrWords::Fat(w0, w1), PtrWords::Fat(s0, s1)) => {
            (w0 == s0 && s1 == w1.wrapping_add(1) && w1 != 0 && is_valid_descriptor(w0)) || (w1
                == s1 && s0 == w0.wrapping_add(1) && w0 != 0 && is_valid_descriptor(w1))
        },
        (PtrWords::Fat(_, _), PtrWords::Thin(_)) => false,
    }
}

/// A probe loses nothing: what it finds is well formed and gives back the
/// words that were probed.
pub proof fn lemma_probe_restores(ptr: PtrWords, shifted: PtrWords)
    requires
        valid_probe(ptr, shifted),
    ensures
        probed(ptr, shifted).well_formed(),
        probed(ptr, shifted).words() == ptr,
{
}

/// A machine word has four bytes or eight.
pub proof fn lemma_word_bytes()
    ensures
        word_bytes() == 4 || word_bytes() == 8,
{
    vstd::layout::usize_size_pow2();
}

/// A descriptor is even and is not the last word of the address space, so
/// its low bit is free to hold a mark.
proof fn lemma_low_bit_free(word: usize)
    requires
        valid_descriptor(word),
    ensures
        word % 2 == 0,
        word < usize::MAX,
{
    lemma_word_bytes();
    let w: int = word as int;
    if word_bytes() == 4 {
        assert(w % 4 == 0);
        assert(w % 2 == 0);
    } else {
        assert(w % 8 == 0);
        assert(w % 2 == 0);
    }
    assert(usize::MAX == 0xffff_ffff || usize::MAX == 0xffff_ffff_ffff_ffff) by {
        vstd::layout::usize_size_pow2();
    }
}

} // verus!
