//! Source bytes read as text: every byte stands for the character with the
//! same code.

use vstd::prelude::*;
use vstd::string::*;

verus! {

/// `String::push` appends the given character to the end of the string.
pub assume_specification[ std::string::String::push ](s: &mut std::string::String, c: char)
    ensures
        final(s)@ == old(s)@.push(c),
;

/// The text that a run of bytes spells, one character for each byte.
pub open spec fn text_of(bytes: Seq<u8>) -> Seq<char> {
    Seq::new(bytes.len(), |i: int| bytes[i] as char)
}

/// The bytes of plain ASCII text, one byte for each character.
pub open spec fn bytes_of(text: Seq<char>) -> Seq<u8> {
    Seq::new(text.len(), |i: int| text[i] as u8)
}

/// Plain ASCII text is recovered from its bytes.
pub proof fn lemma_text_of_ascii_bytes(text: Seq<char>)
    requires
        vstd::utf8::is_ascii_chars(text),
    ensures
        text_of(bytes_of(text)) == text,
{
}

/// Two runs of bytes spell the same text only if they are the same bytes.
pub proof fn lemma_text_of_injective(a: Seq<u8>, b: Seq<u8>)
    requires
        text_of(a) == text_of(b),
    ensures
        a == b,
{
    assert(b.len() == text_of(b).len());
    assert forall|i: int| 0 <= i < a.len() implies a[i] == b[i] by {
        assert(text_of(b)[i] == b[i] as char);
    }
}

/// The character that writes the digit `d`.
pub open spec fn digit_char(d: nat) -> char
    recommends
        d < 10,
{
    ('0' as nat + d) as char
}

/// A natural number written in decimal, without needless zeros.
pub open spec fn decimal_text(n: nat) -> Seq<char>
    decreases n,
{
    if n < 10 {
        seq![digit_char(n)]
    } else {
        decimal_text(n / 10).push(digit_char(n % 10))
    }
}

/// Appends `n`, written in decimal, to `text`.
pub fn append_decimal(text: &mut String, n: usize)
    ensures
        final(text)@ == old(text)@ + decimal_text(n as nat),
    decreases n,
{
    if n >= 10 {
        append_decimal(text, n / 10);
    }
    let d: u8 = (n % 10) as u8;
    let c: char = (48u8 + d) as char;
    text.push(c);
}

/// Appends the bytes from `from` up to `to` of the source to `text`.
pub fn append_bytes(text: &mut String, source: &[u8], from: usize, to: usize)
    requires
        from <= to <= source@.len(),
    ensures
        final(text)@ == old(text)@ + text_of(source@).subrange(from as int, to as int),
{
    let mut i: usize = from;
    while i < to
        invariant
            from <= i <= to <= source@.len(),
            text@ == old(text)@ + text_of(source@).subrange(from as int, i as int),
        decreases to - i,
    {
        let c: char = source[i] as char;
        text.push(c);
        i += 1;
    }
}

/// Copies the bytes from `from` up to `to` out of the source as text.
pub fn text_from_bytes(source: &[u8], from: usize, to: usize) -> (text: String)
    requires
        from <= to <= source@.len(),
    ensures
        text@ == text_of(source@).subrange(from as int, to as int),
{
    let mut text = String::new();
    append_bytes(&mut text, source, from, to);
    text
}

/// Whether the bytes from `from` up to `to` spell exactly `word`.
pub fn bytes_spell(source: &[u8], from: usize, to: usize, word: &str) -> (r: bool)
    requires
        from <= to <= source@.len(),
        word.is_ascii(),
    ensures
        r == (text_of(source@).subrange(from as int, to as int) == word@),
{
    broadcast use is_ascii_spec_bytes;

    let letters = word.as_bytes();
    let ghost run = source@.subrange(from as int, to as int);
    proof {
        lemma_text_of_ascii_bytes(word@);
    }
    if letters.len() != to - from {
        return false;
    }
    let mut i: usize = 0;
    while i < letters.len()
        invariant
            from <= to <= source@.len(),
            letters@.len() == to - from,
            run == source@.subrange(from as int, to as int),
            text_of(letters@) == word@,
            text_of(run) == text_of(source@).subrange(from as int, to as int),
            i <= letters@.len(),
            forall|j: int| 0 <= j < i ==> run[j] == letters@[j],
        decreases letters@.len() - i,
    {
        if source[from + i] != letters[i] {
            proof {
                if text_of(run) == word@ {
                    lemma_text_of_injective(run, letters@);
                }
            }
            return false;
        }
        i += 1;
    }
    assert(run =~= letters@);
    true
}

} // verus!
