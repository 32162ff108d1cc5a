//! Message text to the bytes of a wire charset, under one of three data
//! coding policies.

use vstd::prelude::*;

verus! {

/// The charset that message text is sent in. Each one writes a character as
/// its code point, in one byte or in two, and has no way to write a character
/// above its highest code point.
#[derive(Debug, Clone, Copy, PartialEq, Eq, Structural)]
pub enum DataCoding {
    /// IA5, seven bits: code points up to 0x7f, one byte each.
    Ia5,
    /// ISO 8859-1: code points up to 0xff, one byte each.
    Latin1,
    /// UCS-2: code points up to 0xffff, two bytes each, the high one first.
    Ucs2,
}

impl DataCoding {
    /// The data-coding byte that announces the charset in a message.
    pub open spec fn spec_code(self) -> u8 {
        match self {
            DataCoding::Ia5 => 0x01,
            DataCoding::Latin1 => 0x03,
            DataCoding::Ucs2 => 0x08,
        }
    }

    /// The highest code point that the charset can write.
    pub open spec fn spec_highest(self) -> u32 {
        match self {
            DataCoding::Ia5 => 0x7f,
            DataCoding::Latin1 => 0xff,
            DataCoding::Ucs2 => 0xffff,
        }
    }

    /// The bytes of one character.
    pub open spec fn unit(self, c: char) -> Seq<u8> {
        match self {
            DataCoding::Ucs2 => seq![(((c as u32) >> 8) & 0xff) as u8, ((c as u32) & 0xff) as u8],
            _ => seq![((c as u32) & 0xff) as u8],
        }
    }

    #[verifier::when_used_as_spec(spec_code)]
    pub fn code(self) -> (b: u8)
        ensures
            b == self.spec_code(),
    {
        match self {
            DataCoding::Ia5 => 0x01,
            DataCoding::Latin1 => 0x03,
            DataCoding::Ucs2 => 0x08,
        }
    }

    #[verifier::when_used_as_spec(spec_highest)]
    pub fn highest(self) -> (v: u32)
        ensures
            v == self.spec_highest(),
    {
        match self {
            DataCoding::Ia5 => 0x7f,
            DataCoding::Latin1 => 0xff,
            DataCoding::Ucs2 => 0xffff,
        }
    }
}

/// Every character of `text` is one that `coding` can write.
pub open spec fn representable(text: Seq<char>, coding: DataCoding) -> bool {
    forall|i: int| 0 <= i < text.len() ==> (#[trigger] text[i]) as u32 <= coding.spec_highest()
}

/// The bytes of `text` in the charset of `coding`: the bytes of its
/// characters, one character after the other.
pub open spec fn encoded_text(text: Seq<char>, coding: DataCoding) -> Seq<u8>
    decreases text.len(),
{
    if text.len() == 0 {
        Seq::empty()
    } else {
        encoded_text(text.drop_last(), coding) + coding.unit(text.last())
    }
}

/// Text takes one byte for each character, or two in UCS-2.
pub proof fn lemma_encoded_text_len(text: Seq<char>, coding: DataCoding)
    ensures
        encoded_text(text, coding).len() == if coding == DataCoding::Ucs2 {
            2 * text.len()
        } else {
            text.len()
        },
    decreases text.len(),
{
    if text.len() > 0 {
        lemma_encoded_text_len(text.drop_last(), coding);
    }
}

/// The bytes of `text` in the charset of `coding`, or `None` where the
/// charset cannot write one of its characters.
pub fn encode_text(text: &str, coding: DataCoding) -> (out: Option<Vec<u8>>)
    ensures
        out is Some <==> representable(text@, coding),
        out is Some ==> out->0@ == encoded_text(text@, coding),
{
    let highest = coding.highest();
    let mut out: Vec<u8> = Vec::new();
    for c in it: text.chars()
        invariant
            it.seq() == text@,
            highest == coding.spec_highest(),
            representable(text@.take(it.index() as int), coding),
            out@ == encoded_text(text@.take(it.index() as int), coding),
    {
        let v = c as u32;
        let ghost i = it.index() as int;
        proof {
            let next = text@.take(i + 1);
            assert(next.drop_last() =~= text@.take(i));
            assert(next.last() == c);
        }
        if v > highest {
            assert(text@[i] as u32 > coding.spec_highest());
            return None;
        }
        match coding {
            DataCoding::Ucs2 => {
                out.push(((v >> 8) & 0xff) as u8);
                out.push((v & 0xff) as u8);
            },
            _ => {
                out.push((v & 0xff) as u8);
            },
        }
        proof {
            let next = text@.take(i + 1);
            assert(out@ =~= encoded_text(text@.take(i), coding) + coding.unit(c));
            assert forall|j: int| 0 <= j < next.len() implies (#[trigger] next[j]) as u32
                <= coding.spec_highest() by {
                if j < i {
                    assert(next[j] == text@.take(i)[j]);
                }
            }
        }
    }
    assert(text@.take(text@.len() as int) =~= text@);
    Some(out)
}

} // verus!
