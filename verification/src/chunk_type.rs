//! The 4-byte chunk type code: four ASCII letters whose case carries the PNG
//! bit-flag semantics (critical, public, reserved, safe-to-copy).

use crate::error::PngError;
use crate::text::bytes_as_chars;
use crate::text::lemma_ascii_bytes_decode;
use vstd::prelude::*;

verus! {

/// True of the codes of the 52 ASCII letters.
pub open spec fn is_letter_code(x: u32) -> bool {
    (65 <= x && x <= 90) || (97 <= x && x <= 122)
}

/// True of the 52 ASCII letter bytes, `A`-`Z` and `a`-`z`.
pub open spec fn is_letter(b: u8) -> bool {
    is_letter_code(b as u32)
}

/// True of uppercase ASCII letter bytes (bit 5 clear).
pub open spec fn is_upper(b: u8) -> bool {
    65 <= b && b <= 90
}

/// True of lowercase ASCII letter bytes (bit 5 set).
pub open spec fn is_lower(b: u8) -> bool {
    97 <= b && b <= 122
}

/// True of ASCII letter characters.
pub open spec fn is_letter_char(c: char) -> bool {
    is_letter_code(c as u32)
}

/// A well-formed type code: exactly 4 bytes, each an ASCII letter.
pub open spec fn type_wf(ty: Seq<u8>) -> bool {
    ty.len() == 4 && forall|i: int| 0 <= i < 4 ==> is_letter(#[trigger] ty[i])
}

/// The text form of a type code: its bytes read as ASCII characters.
pub open spec fn type_text(ty: Seq<u8>) -> Seq<char> {
    bytes_as_chars(ty)
}

/// The byte of an ASCII character.
pub open spec fn char_byte(c: char) -> u8 {
    (c as u32) as u8
}

/// The bytes of a sequence of ASCII characters.
pub open spec fn text_bytes(s: Seq<char>) -> Seq<u8> {
    Seq::new(s.len(), |i: int| char_byte(s[i]))
}

/// A 4-byte chunk type identifier. Every stored byte is an ASCII letter:
/// both constructors reject anything else, so the text form is total.
#[derive(Debug, Clone, Copy, PartialEq, Eq)]
pub struct ChunkType {
    pub(crate) code: [u8; 4],
}

impl View for ChunkType {
    type V = Seq<u8>;

    closed spec fn view(&self) -> Seq<u8> {
        self.code@
    }
}

impl ChunkType {
    #[verifier::type_invariant]
    pub(crate) open spec fn inv(self) -> bool {
        type_wf(self@)
    }

    /// Builds a type code from 4 raw bytes; rejects any byte outside the
    /// ASCII letter ranges.
    pub fn try_from(value: [u8; 4]) -> (r: Result<ChunkType, PngError>)
        ensures
            r is Ok <==> type_wf(value@),
            r matches Ok(t) ==> t@ == value@,
            r matches Err(e) ==> e == PngError::InvalidTypeCode,
    {
        let mut i: usize = 0;
        while i < 4
            invariant
                i <= 4,
                forall|j: int| 0 <= j < i ==> is_letter(#[trigger] value@[j]),
            decreases 4 - i,
        {
            let b = value[i];
            if !((65 <= b && b <= 90) || (97 <= b && b <= 122)) {
                return Err(PngError::InvalidTypeCode);
            }
            i += 1;
        }
        Ok(ChunkType { code: value })
    }

    /// The byte of one ASCII letter character, or nothing for any other
    /// character.
    fn letter_byte(c: char) -> (r: Option<u8>)
        ensures
            r is Some <==> is_letter_char(c),
            r matches Some(b) ==> is_letter(b) && b as char == c && b == char_byte(c),
    {
        let x = c as u32;
        if (65 <= x && x <= 90) || (97 <= x && x <= 122) {
            let b = x as u8;
            proof {
                vstd::utf8::char_u32_cast(c, x);
                assert(b as u32 == x);
            }
            Some(b)
        } else {
            None
        }
    }

    /// Builds a type code from text: exactly 4 characters, each an ASCII
    /// letter.
    pub fn from_str(s: &str) -> (r: Result<ChunkType, PngError>)
        ensures
            r is Ok <==> (s@.len() == 4 && forall|i: int|
                0 <= i < 4 ==> is_letter_char(#[trigger] s@[i])),
            r matches Ok(t) ==> t@ == text_bytes(s@) && type_text(t@) == s@,
            r matches Err(e) ==> e == (if s@.len() != 4 {
                PngError::InvalidLength
            } else {
                PngError::InvalidTypeCode
            }),
    {
        if s.unicode_len() != 4 {
            return Err(PngError::InvalidLength);
        }
        let b0 = match Self::letter_byte(s.get_char(0)) {
            Some(b) => b,
            None => {
                return Err(PngError::InvalidTypeCode);
            },
        };
        let b1 = match Self::letter_byte(s.get_char(1)) {
            Some(b) => b,
            None => {
                return Err(PngError::InvalidTypeCode);
            },
        };
        let b2 = match Self::letter_byte(s.get_char(2)) {
            Some(b) => b,
            None => {
                return Err(PngError::InvalidTypeCode);
            },
        };
        let b3 = match Self::letter_byte(s.get_char(3)) {
            Some(b) => b,
            None => {
                return Err(PngError::InvalidTypeCode);
            },
        };
        let t = ChunkType { code: [b0, b1, b2, b3] };
        proof {
            assert(t@ =~= text_bytes(s@));
            assert(type_text(t@) =~= s@);
        }
        Ok(t)
    }

    /// The stored bytes, verbatim.
    pub fn bytes(&self) -> (r: [u8; 4])
        ensures
            r@ == self@,
    {
        self.code
    }

    /// Critical chunk: first byte uppercase.
    pub fn is_critical(&self) -> (r: bool)
        ensures
            r == is_upper(self@[0]),
    {
        let b = self.code[0];
        65 <= b && b <= 90
    }

    /// Public chunk: second byte uppercase.
    pub fn is_public(&self) -> (r: bool)
        ensures
            r == is_upper(self@[1]),
    {
        let b = self.code[1];
        65 <= b && b <= 90
    }

    /// Reserved bit conformant: third byte uppercase.
    pub fn is_reserved_bit_valid(&self) -> (r: bool)
        ensures
            r == is_upper(self@[2]),
    {
        let b = self.code[2];
        65 <= b && b <= 90
    }

    /// Safe to copy: fourth byte lowercase.
    pub fn is_safe_to_copy(&self) -> (r: bool)
        ensures
            r == is_lower(self@[3]),
    {
        let b = self.code[3];
        97 <= b && b <= 122
    }

    /// Overall validity is the reserved-bit flag; the other three flags are
    /// informational only.
    pub fn is_valid(&self) -> (r: bool)
        ensures
            r == is_upper(self@[2]),
    {
        self.is_reserved_bit_valid()
    }

    /// The 4 bytes as text. Total: the constructor invariant guarantees
    /// printable ASCII.
    pub fn render_as_text(&self) -> (r: String)
        ensures
            r@ == type_text(self@),
    {
        proof {
            use_type_invariant(&*self);
        }
        let mut v: Vec<u8> = Vec::new();
        v.push(self.code[0]);
        v.push(self.code[1]);
        v.push(self.code[2]);
        v.push(self.code[3]);
        proof {
            assert(v@ =~= self@);
            lemma_ascii_bytes_decode(v@);
        }
        match crate::text::bytes_to_string(&v) {
            Some(s) => s,
            None => vstd::pervasive::unreached(),
        }
    }

    /// Whether this code's text form is the given string.
    pub fn matches_text(&self, text: &str) -> (r: bool)
        ensures
            r == (type_text(self@) == text@),
    {
        proof {
            use_type_invariant(&*self);
        }
        if text.unicode_len() != 4 {
            proof {
                assert(type_text(self@).len() == 4);
            }
            return false;
        }
        let r = text.get_char(0) == (self.code[0] as char) && text.get_char(1) == (self.code[1]
            as char) && text.get_char(2) == (self.code[2] as char) && text.get_char(3) == (
        self.code[3] as char);
        proof {
            if r {
                assert(type_text(self@) =~= text@);
            } else {
                assert(type_text(self@) != text@);
            }
        }
        r
    }
}

} // verus!
