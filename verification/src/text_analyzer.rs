//! Character-class statistics over a text: how many of its characters are
//! hiragana, katakana, kanji, or ASCII letters.

use vstd::prelude::*;
use vstd::string::StrSliceExecFns;

verus! {

/// A character whose code point lies in the inclusive range `[lo, hi]`.
pub open spec fn in_code_range(c: char, lo: u32, hi: u32) -> bool {
    lo <= c as u32 <= hi
}

/// A character in the Unicode hiragana block.
pub open spec fn is_hiragana(c: char) -> bool {
    in_code_range(c, 0x3040, 0x309F)
}

/// A character in the Unicode katakana block.
pub open spec fn is_katakana(c: char) -> bool {
    in_code_range(c, 0x30A0, 0x30FF)
}

/// A character in the Unicode CJK unified ideographs block.
pub open spec fn is_kanji(c: char) -> bool {
    in_code_range(c, 0x4E00, 0x9FFF)
}

/// An ASCII letter, upper or lower case.
pub open spec fn is_alphabet(c: char) -> bool {
    in_code_range(c, 0x41, 0x5A) || in_code_range(c, 0x61, 0x7A)
}

/// How many characters of `s` lie in the code-point range `[lo, hi]`.
pub open spec fn count_in_range_spec(s: Seq<char>, lo: u32, hi: u32) -> nat
    decreases s.len(),
{
    if s.len() == 0 {
        0
    } else {
        count_in_range_spec(s.drop_last(), lo, hi) + if in_code_range(s.last(), lo, hi) {
            1nat
        } else {
            0nat
        }
    }
}

/// How many characters of `s` are hiragana.
pub open spec fn count_hiragana_spec(s: Seq<char>) -> nat {
    count_in_range_spec(s, 0x3040, 0x309F)
}

/// How many characters of `s` are katakana.
pub open spec fn count_katakana_spec(s: Seq<char>) -> nat {
    count_in_range_spec(s, 0x30A0, 0x30FF)
}

/// How many characters of `s` are kanji.
pub open spec fn count_kanji_spec(s: Seq<char>) -> nat {
    count_in_range_spec(s, 0x4E00, 0x9FFF)
}

/// How many characters of `s` are ASCII letters.
pub open spec fn count_alphabets_spec(s: Seq<char>) -> nat {
    count_in_range_spec(s, 0x41, 0x5A) + count_in_range_spec(s, 0x61, 0x7A)
}

proof fn lemma_count_extend(s: Seq<char>, lo: u32, hi: u32, i: int)
    requires
        0 <= i < s.len(),
    ensures
        count_in_range_spec(s.subrange(0, i + 1), lo, hi) == count_in_range_spec(
            s.subrange(0, i),
            lo,
            hi,
        ) + if in_code_range(s[i], lo, hi) {
            1nat
        } else {
            0nat
        },
{
    let t = s.subrange(0, i + 1);
    assert(t.drop_last() =~= s.subrange(0, i));
    assert(t.last() == s[i]);
}

/// No more characters lie in a range than there are characters.
pub proof fn lemma_count_le_len(s: Seq<char>, lo: u32, hi: u32)
    ensures
        count_in_range_spec(s, lo, hi) <= s.len(),
    decreases s.len(),
{
    if s.len() > 0 {
        lemma_count_le_len(s.drop_last(), lo, hi);
    }
}

/// Two disjoint ranges together cover no more characters than there are.
proof fn lemma_count_two_ranges_le_len(s: Seq<char>, lo1: u32, hi1: u32, lo2: u32, hi2: u32)
    requires
        hi1 < lo2,
    ensures
        count_in_range_spec(s, lo1, hi1) + count_in_range_spec(s, lo2, hi2) <= s.len(),
    decreases s.len(),
{
    if s.len() > 0 {
        lemma_count_two_ranges_le_len(s.drop_last(), lo1, hi1, lo2, hi2);
    }
}

pub struct TextAnalyzer {
    pub text: String,
}

impl TextAnalyzer {
    pub fn new(text: String) -> (r: Self)
        ensures
            r.text@ == text@,
    {
        Self { text }
    }

    /// The number of characters (not bytes) in the text.
    pub fn length(&self) -> (r: usize)
        ensures
            r == self.text@.len(),
    {
        self.text.as_str().unicode_len()
    }

    /// How many characters fall in the code-point range `[lo, hi]`.
    fn count_in_range(&self, lo: u32, hi: u32) -> (r: usize)
        ensures
            r == count_in_range_spec(self.text@, lo, hi),
            r <= self.text@.len(),
    {
        let mut count: usize = 0;
        let n: usize = self.text.as_str().unicode_len();
        let mut i: usize = 0;
        while i < n
            invariant
                i <= n,
                n == self.text@.len(),
                count == count_in_range_spec(self.text@.subrange(0, i as int), lo, hi),
                count <= i,
            decreases n - i,
        {
            let c = self.text.as_str().get_char(i);
            proof {
                lemma_count_extend(self.text@, lo, hi, i as int);
            }
            if (c as u32) >= lo && (c as u32) <= hi {
                count = count + 1;
            }
            i = i + 1;
        }
        proof {
            assert(self.text@.subrange(0, n as int) =~= self.text@);
            lemma_count_le_len(self.text@, lo, hi);
        }
        count
    }

    pub fn count_hiragana(&self) -> (r: usize)
        ensures
            r == count_hiragana_spec(self.text@),
            r <= self.text@.len(),
    {
        self.count_in_range(0x3040, 0x309F)
    }

    pub fn count_katakana(&self) -> (r: usize)
        ensures
            r == count_katakana_spec(self.text@),
            r <= self.text@.len(),
    {
        self.count_in_range(0x30A0, 0x30FF)
    }

    pub fn count_kanji(&self) -> (r: usize)
        ensures
            r == count_kanji_spec(self.text@),
            r <= self.text@.len(),
    {
        self.count_in_range(0x4E00, 0x9FFF)
    }

    pub fn count_alphabets(&self) -> (r: usize)
        ensures
            r == count_alphabets_spec(self.text@),
            r <= self.text@.len(),
    {
        let n = self.length();
        let upper = self.count_in_range(0x41, 0x5A);
        let lower = self.count_in_range(0x61, 0x7A);
        proof {
            lemma_count_two_ranges_le_len(self.text@, 0x41, 0x5A, 0x61, 0x7A);
            assert(upper + lower <= n);
        }
        upper + lower
    }
}

} // verus!
