//! The codepages, by the numbers of their characters.

use vstd::prelude::*;

use super::encoding::{place, Encoding, CP1252_HIGH, CP850_HIGH};
use crate::text::{lowered, trim};

verus! {

/// The code points of the upper half of DOS codepage 850.
pub open spec fn dos_western() -> Seq<u32> {
    seq![
        0xc7u32, 0xfcu32, 0xe9u32, 0xe2u32, 0xe4u32, 0xe0u32, 0xe5u32, 0xe7u32, 0xeau32,
        0xebu32, 0xe8u32, 0xefu32, 0xeeu32, 0xecu32, 0xc4u32, 0xc5u32, 0xc9u32, 0xe6u32,
        0xc6u32, 0xf4u32, 0xf6u32, 0xf2u32, 0xfbu32, 0xf9u32, 0xffu32, 0xd6u32, 0xdcu32,
        0xf8u32, 0xa3u32, 0xd8u32, 0xd7u32, 0x192u32, 0xe1u32, 0xedu32, 0xf3u32, 0xfau32,
        0xf1u32, 0xd1u32, 0xaau32, 0xbau32, 0xbfu32, 0xaeu32, 0xacu32, 0xbdu32, 0xbcu32,
        0xa1u32, 0xabu32, 0xbbu32, 0x2591u32, 0x2592u32, 0x2593u32, 0x2502u32, 0x2524u32,
        0xc1u32, 0xc2u32, 0xc0u32, 0xa9u32, 0x2563u32, 0x2551u32, 0x2557u32, 0x255du32, 0xa2u32,
        0xa5u32, 0x2510u32, 0x2514u32, 0x2534u32, 0x252cu32, 0x251cu32, 0x2500u32, 0x253cu32,
        0xe3u32, 0xc3u32, 0x255au32, 0x2554u32, 0x2569u32, 0x2566u32, 0x2560u32, 0x2550u32,
        0x256cu32, 0xa4u32, 0xf0u32, 0xd0u32, 0xcau32, 0xcbu32, 0xc8u32, 0x131u32, 0xcdu32,
        0xceu32, 0xcfu32, 0x2518u32, 0x250cu32, 0x2588u32, 0x2584u32, 0xa6u32, 0xccu32,
        0x2580u32, 0xd3u32, 0xdfu32, 0xd4u32, 0xd2u32, 0xf5u32, 0xd5u32, 0xb5u32, 0xfeu32,
        0xdeu32, 0xdau32, 0xdbu32, 0xd9u32, 0xfdu32, 0xddu32, 0xafu32, 0xb4u32, 0xadu32,
        0xb1u32, 0x2017u32, 0xbeu32, 0xb6u32, 0xa7u32, 0xf7u32, 0xb8u32, 0xb0u32, 0xa8u32,
        0xb7u32, 0xb9u32, 0xb3u32, 0xb2u32, 0x25a0u32, 0xa0u32,
    ]
}

/// The code points of bytes 0x80 to 0x9f of Windows codepage 1252.
pub open spec fn windows_western() -> Seq<u32> {
    seq![
        0x20acu32, 0x81u32, 0x201au32, 0x192u32, 0x201eu32, 0x2026u32, 0x2020u32, 0x2021u32,
        0x2c6u32, 0x2030u32, 0x160u32, 0x2039u32, 0x152u32, 0x8du32, 0x17du32, 0x8fu32, 0x90u32,
        0x2018u32, 0x2019u32, 0x201cu32, 0x201du32, 0x2022u32, 0x2013u32, 0x2014u32, 0x2dcu32,
        0x2122u32, 0x161u32, 0x203au32, 0x153u32, 0x9du32, 0x17eu32, 0x178u32,
    ]
}

/// Every byte stands for the character that the codepage's own table gives it:
/// the lower half is ASCII in all of them, ISO 8859-1 is the first 256 code
/// points, and Windows-1252 is that but for bytes 0x80 to 0x9f.
pub proof fn every_byte_stands_for_its_character(byte: u8)
    ensures
        byte < 0x80 ==> Encoding::Cp850.char_of(byte) as u32 == byte && Encoding::Cp1252.char_of(
            byte,
        ) as u32 == byte,
        Encoding::Latin1.char_of(byte) as u32 == byte,
        byte >= 0x80 ==> Encoding::Cp850.char_of(byte) as u32 == dos_western()[byte - 0x80],
        0x80 <= byte < 0xa0 ==> Encoding::Cp1252.char_of(byte) as u32 == windows_western()[byte
            - 0x80],
        byte >= 0xa0 ==> Encoding::Cp1252.char_of(byte) as u32 == byte,
{
    if byte >= 0x80 {
        let i = byte - 0x80;
        dos_table(i);
        windows_table(i);
    }
}

proof fn dos_table(i: int)
    requires
        0 <= i < 128,
    ensures
        CP850_HIGH@[i] as u32 == dos_western()[i],
{
}

proof fn windows_table(i: int)
    requires
        0 <= i < 128,
    ensures
        i < 32 ==> CP1252_HIGH@[i] as u32 == windows_western()[i],
        i >= 32 ==> CP1252_HIGH@[i] as u32 == i + 0x80,
{
}

/// A character that no byte stands for goes out as a question mark.
pub proof fn a_character_without_a_byte_is_marked(encoding: Encoding, ch: char)
    requires
        encoding.single_byte(),
        forall|byte: u8| #[trigger] encoding.char_of(byte) != ch,
    ensures
        encoding.encoded(seq![ch]) == seq![0x3fu8],
{
    let code = ch as u32;
    if code < 0x80 {
        assert(encoding.char_of(code as u8) == ch);
    } else if encoding == Encoding::Latin1 {
        if code <= 0xff {
            assert(encoding.char_of(code as u8) == ch);
        }
    } else {
        let table = if encoding == Encoding::Cp850 {
            CP850_HIGH@
        } else {
            CP1252_HIGH@
        };
        assert forall|i: int| 0 <= i < 128 implies #[trigger] table[i] != ch by {
            let byte = (0x80 + i) as u8;
            assert(encoding.char_of(byte) == table[i]);
        }
        not_in_the_table(table, ch, 0);
    }
    assert(encoding.encoded(seq![ch]) =~= seq![0x3fu8]);
}

proof fn not_in_the_table(table: Seq<char>, ch: char, from: int)
    requires
        0 <= from,
        forall|i: int| 0 <= i < table.len() ==> #[trigger] table[i] != ch,
    ensures
        place(table, ch, from) is None,
    decreases table.len() - from,
{
    if from < table.len() {
        not_in_the_table(table, ch, from + 1);
    }
}

/// UTF-8 is the one encoding that is passed through, and the default where a
/// name is not known.
pub proof fn utf8_is_passed_through(bytes: Seq<u8>)
    ensures
        Encoding::Utf8.decoded(bytes) == bytes,
{
}

/// The names that a settings file may use, however they are cased and whatever
/// stands around them.
pub proof fn every_name_is_known(name: Seq<char>)
    ensures
        ({
            let n = lowered(trim(name));
            let known = Encoding::named(name);
            &&& n == "utf8"@ || n == "utf-8"@ ==> known == Some(Encoding::Utf8)
            &&& n == "cp850"@ || n == "ibm850"@ || n == "850"@ ==> known == Some(Encoding::Cp850)
            &&& n == "cp1252"@ || n == "windows-1252"@ || n == "1252"@ ==> known == Some(
                Encoding::Cp1252,
            )
            &&& n == "latin1"@ || n == "iso-8859-1"@ || n == "iso8859-1"@ ==> known == Some(
                Encoding::Latin1,
            )
            &&& n == "cp850-doubled"@ ==> known is None
        }),
{
    reveal_strlit("utf8");
    reveal_strlit("utf-8");
    reveal_strlit("cp850");
    reveal_strlit("ibm850");
    reveal_strlit("850");
    reveal_strlit("cp1252");
    reveal_strlit("windows-1252");
    reveal_strlit("1252");
    reveal_strlit("latin1");
    reveal_strlit("iso-8859-1");
    reveal_strlit("iso8859-1");
    reveal_strlit("cp850-doubled");
    let n = lowered(trim(name));
    assert("utf8"@[0] == 'u' && "utf-8"@[0] == 'u' && "cp850"@[0] == 'c' && "ibm850"@[0] == 'i'
        && "850"@[0] == '8' && "cp1252"@[0] == 'c' && "windows-1252"@[0] == 'w' && "1252"@[0] == '1'
        && "latin1"@[0] == 'l' && "iso-8859-1"@[0] == 'i' && "iso8859-1"@[0] == 'i');
    assert("cp850"@.len() == 5 && "cp1252"@.len() == 6 && "cp850-doubled"@.len() == 13
        && "ibm850"@.len() == 6 && "iso-8859-1"@.len() == 10 && "iso8859-1"@.len() == 9
        && "windows-1252"@.len() == 12);
}

/// A settings file calls each encoding by a name that is known.
pub proof fn every_encoding_is_called_by_a_name()
    ensures
        Encoding::Utf8.spec_name() == "utf8"@,
        Encoding::Cp850.spec_name() == "cp850"@,
        Encoding::Cp1252.spec_name() == "cp1252"@,
        Encoding::Latin1.spec_name() == "latin1"@,
{
}

} // verus!
