//! Numbers and bytes as text, and the flash image in words.

use vstd::prelude::*;

use super::flash_data::FlashData;

verus! {

/// The character of the decimal digit `d`.
pub open spec fn digit_char(d: int) -> char {
    seq!['0', '1', '2', '3', '4', '5', '6', '7', '8', '9'][d]
}

/// `n` in decimal digits, without leading zeros.
pub open spec fn decimal(n: nat) -> Seq<char>
    decreases n,
{
    if n < 10 {
        seq![digit_char(n as int)]
    } else {
        decimal(n / 10).push(digit_char((n % 10) as int))
    }
}

/// The character of the hexadecimal digit `d`, with capital letters.
pub open spec fn hex_char(d: int) -> char {
    seq!['0', '1', '2', '3', '4', '5', '6', '7', '8', '9', 'A', 'B', 'C', 'D', 'E', 'F'][d]
}

/// `bytes` in hexadecimal digits, two for each byte, the high one first.
pub open spec fn hex(bytes: Seq<u8>) -> Seq<char>
    decreases bytes.len(),
{
    if bytes.len() == 0 {
        Seq::empty()
    } else {
        hex(bytes.drop_last()).push(hex_char(bytes.last() as int / 16)).push(
            hex_char(bytes.last() as int % 16),
        )
    }
}

/// The text of the hexadecimal digit `d`; a decimal digit is its own text.
fn digit_str(d: u8) -> (r: &'static str)
    requires
        d < 16,
    ensures
        r@ == seq![hex_char(d as int)],
        d < 10 ==> r@ == seq![digit_char(d as int)],
{
    proof {
        reveal_strlit("0");
        reveal_strlit("1");
        reveal_strlit("2");
        reveal_strlit("3");
        reveal_strlit("4");
        reveal_strlit("5");
        reveal_strlit("6");
        reveal_strlit("7");
        reveal_strlit("8");
        reveal_strlit("9");
        reveal_strlit("A");
        reveal_strlit("B");
        reveal_strlit("C");
        reveal_strlit("D");
        reveal_strlit("E");
        reveal_strlit("F");
    }
    let r = match d {
        0 => "0",
        1 => "1",
        2 => "2",
        3 => "3",
        4 => "4",
        5 => "5",
        6 => "6",
        7 => "7",
        8 => "8",
        9 => "9",
        10 => "A",
        11 => "B",
        12 => "C",
        13 => "D",
        14 => "E",
        _ => "F",
    };
    assert(r@ =~= seq![hex_char(d as int)]);
    r
}

/// Write `n` in decimal digits.
pub fn to_decimal(n: usize) -> (r: String)
    ensures
        r@ == decimal(n as nat),
    decreases n,
{
    if n < 10 {
        String::from_str(digit_str(n as u8))
    } else {
        let mut text = to_decimal(n / 10);
        text.append(digit_str((n % 10) as u8));
        assert(text@ =~= decimal(n as nat));
        text
    }
}

/// Write `bytes` in hexadecimal digits.
pub fn to_hex(bytes: &[u8]) -> (r: String)
    ensures
        r@ == hex(bytes@),
{
    let mut text = String::new();
    let mut i: usize = 0;
    while i < bytes.len()
        invariant
            0 <= i <= bytes@.len(),
            text@ == hex(bytes@.take(i as int)),
        decreases bytes@.len() - i,
    {
        let byte: u8 = bytes[i];
        text.append(digit_str(byte / 16));
        text.append(digit_str(byte % 16));
        proof {
            assert(bytes@.take(i + 1).drop_last() =~= bytes@.take(i as int));
            assert(text@ =~= hex(bytes@.take(i + 1)));
        }
        i = i + 1;
    }
    proof {
        assert(bytes@.take(bytes@.len() as int) =~= bytes@);
    }
    text
}

/// The image in a few words: how many pages it holds.
pub open spec fn summary_text(image: Seq<(int, Seq<u8>)>) -> Seq<char> {
    decimal(image.len()) + " pages of data"@
}

/// One page as a debug entry: its name in quotes, then its bytes in
/// hexadecimal digits in quotes.
pub open spec fn entry_text(page: (int, Seq<u8>)) -> Seq<char> {
    "\"page_"@ + decimal(page.0 as nat) + "\": \""@ + hex(page.1) + "\""@
}

/// The debug entries of the pages, with a comma and a space between two.
pub open spec fn entries_text(image: Seq<(int, Seq<u8>)>) -> Seq<char>
    decreases image.len(),
{
    if image.len() == 0 {
        Seq::empty()
    } else if image.len() == 1 {
        entry_text(image[0])
    } else {
        entries_text(image.drop_last()) + ", "@ + entry_text(image.last())
    }
}

/// The image as a debug map of its pages.
pub open spec fn debug_text(image: Seq<(int, Seq<u8>)>) -> Seq<char> {
    "FlashData {"@ + entries_text(image) + "}"@
}

impl FlashData {
    /// The image in a few words: how many pages it holds.
    pub fn summary(&self) -> (r: String)
        ensures
            r@ == summary_text(self@),
    {
        let mut text = to_decimal(self.len());
        text.append(" pages of data");
        text
    }

    /// The image as a debug map from the names of its pages to their bytes
    /// in hexadecimal digits.
    pub fn debug_string(&self) -> (r: String)
        ensures
            r@ == debug_text(self@),
    {
        let mut text = String::from_str("FlashData {");
        let ghost opening = text@;
        let mut i: usize = 0;
        while i < self.len()
            invariant
                0 <= i <= self@.len(),
                text@ == opening + entries_text(self@.take(i as int)),
            decreases self@.len() - i,
        {
            let ghost before = text@;
            if i > 0 {
                text.append(", ");
            }
            text.append("\"page_");
            let index_text = to_decimal(self.page_index(i) as usize);
            text.append(index_text.as_str());
            text.append("\": \"");
            let bytes_text = to_hex(self.page_content(i).as_slice());
            text.append(bytes_text.as_str());
            text.append("\"");
            proof {
                let shown = self@.take(i + 1);
                assert(shown.drop_last() =~= self@.take(i as int));
                assert(shown.last() == self@[i as int]);
                if i == 0 {
                    assert(entries_text(self@.take(0)) =~= Seq::<char>::empty());
                    assert(text@ =~= opening + entries_text(shown));
                } else {
                    assert(text@ =~= opening + entries_text(shown));
                }
            }
            i = i + 1;
        }
        proof {
            assert(self@.take(self@.len() as int) =~= self@);
        }
        text.append("}");
        text
    }
}

} // verus!
