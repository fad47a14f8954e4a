//! Character-set handling for the byte stream to and from IRIS.
//!
//! One charset, both directions, applied once: a session has exactly one
//! character set, the bytes arriving are decoded with it, the bytes typed are
//! encoded with it, and nothing translates a second time anywhere in between.
//! Break it in either direction and the terminal and the far side stop agreeing
//! on how many columns a line occupies.
//!
//! Escape sequences are pure ASCII in every encoding handled here, so
//! transcoding never disturbs them.

use vstd::prelude::*;
use vstd::slice::slice_to_vec;
use vstd::utf8::{encode_utf8, is_ascii_chars, is_ascii_chars_encode_utf8};

use crate::text::{chars_of, lowered, lowered_text, same, trim, trimmed, white_space};

verus! {

#[derive(Clone, Copy, Debug, PartialEq, Eq, Structural)]
pub enum Encoding {
    /// Bytes pass through untouched. What a local session always speaks, what a
    /// current instance speaks over Telnet, and the default.
    Utf8,
    /// Western European DOS codepage, as emitted by older instances on Windows
    /// in Latin-script locales.
    Cp850,
    /// Windows Western European.
    Cp1252,
    /// ISO 8859-1.
    Latin1,
}

impl Default for Encoding {
    fn default() -> (encoding: Self)
        ensures
            encoding == Encoding::Utf8,
    {
        Encoding::Utf8
    }
}

/// CP850 (DOS Latin-1), bytes 0x80..0xFF.
pub const CP850_HIGH: [char; 128] = [
    'Ç', 'ü', 'é', 'â', 'ä', 'à', 'å', 'ç', 'ê', 'ë', 'è', 'ï', 'î', 'ì', 'Ä', 'Å', 'É', 'æ',
    'Æ', 'ô', 'ö', 'ò', 'û', 'ù', 'ÿ', 'Ö', 'Ü', 'ø', '£', 'Ø', '×', 'ƒ', 'á', 'í', 'ó', 'ú',
    'ñ', 'Ñ', 'ª', 'º', '¿', '®', '¬', '½', '¼', '¡', '«', '»', '░', '▒', '▓', '│', '┤', 'Á',
    'Â', 'À', '©', '╣', '║', '╗', '╝', '¢', '¥', '┐', '└', '┴', '┬', '├', '─', '┼', 'ã', 'Ã',
    '╚', '╔', '╩', '╦', '╠', '═', '╬', '¤', 'ð', 'Ð', 'Ê', 'Ë', 'È', 'ı', 'Í', 'Î', 'Ï', '┘',
    '┌', '█', '▄', '¦', 'Ì', '▀', 'Ó', 'ß', 'Ô', 'Ò', 'õ', 'Õ', 'µ', 'þ', 'Þ', 'Ú', 'Û', 'Ù',
    'ý', 'Ý', '¯', '´', '\u{00ad}', '±', '‗', '¾', '¶', '§', '÷', '¸', '°', '¨', '·', '¹',
    '³', '²', '■', '\u{00a0}',
];

/// Windows-1252, bytes 0x80..0xFF.
pub const CP1252_HIGH: [char; 128] = [
    '€', '\u{81}', '‚', 'ƒ', '„', '…', '†', '‡', 'ˆ', '‰', 'Š', '‹', 'Œ', '\u{8d}', 'Ž',
    '\u{8f}', '\u{90}', '‘', '’', '“', '”', '•', '–', '—', '˜', '™', 'š', '›', 'œ', '\u{9d}',
    'ž', 'Ÿ', '\u{00a0}', '¡', '¢', '£', '¤', '¥', '¦', '§', '¨', '©', 'ª', '«', '¬',
    '\u{00ad}', '®', '¯', '°', '±', '²', '³', '´', 'µ', '¶', '·', '¸', '¹', 'º', '»', '¼',
    '½', '¾', '¿', 'À', 'Á', 'Â', 'Ã', 'Ä', 'Å', 'Æ', 'Ç', 'È', 'É', 'Ê', 'Ë', 'Ì', 'Í', 'Î',
    'Ï', 'Ð', 'Ñ', 'Ò', 'Ó', 'Ô', 'Õ', 'Ö', '×', 'Ø', 'Ù', 'Ú', 'Û', 'Ü', 'Ý', 'Þ', 'ß', 'à',
    'á', 'â', 'ã', 'ä', 'å', 'æ', 'ç', 'è', 'é', 'ê', 'ë', 'ì', 'í', 'î', 'ï', 'ð', 'ñ', 'ò',
    'ó', 'ô', 'õ', 'ö', '÷', 'ø', 'ù', 'ú', 'û', 'ü', 'ý', 'þ', 'ÿ',
];

/// The first place a table holds `ch`, searching from `from`.
pub open spec fn place(table: Seq<char>, ch: char, from: int) -> Option<int>
    decreases table.len() - from,
{
    if from < 0 || from >= table.len() {
        None
    } else if table[from] == ch {
        Some(from)
    } else {
        place(table, ch, from + 1)
    }
}

fn position(table: &[char; 128], ch: char) -> (at: Option<u8>)
    ensures
        match at {
            Some(i) => i < 128 && place(table@, ch, 0) == Some(i as int),
            None => place(table@, ch, 0) is None,
        },
{
    let mut i: usize = 0;
    while i < 128
        invariant
            i <= 128,
            table@.len() == 128,
            place(table@, ch, 0) == place(table@, ch, i as int),
        decreases 128 - i,
    {
        if table[i] == ch {
            return Some(i as u8);
        }
        i += 1;
    }
    None
}

impl Encoding {
    /// Every encoding there is.
    pub const ALL: [Encoding; 4] = [
        Encoding::Utf8,
        Encoding::Cp850,
        Encoding::Cp1252,
        Encoding::Latin1,
    ];

    pub open spec fn spec_label(self) -> Seq<char> {
        match self {
            Encoding::Utf8 => "UTF-8"@,
            Encoding::Cp850 => "CP850 (DOS Western)"@,
            Encoding::Cp1252 => "Windows-1252"@,
            Encoding::Latin1 => "ISO 8859-1"@,
        }
    }

    pub fn label(self) -> (label: &'static str)
        ensures
            label@ == self.spec_label(),
    {
        match self {
            Encoding::Utf8 => "UTF-8",
            Encoding::Cp850 => "CP850 (DOS Western)",
            Encoding::Cp1252 => "Windows-1252",
            Encoding::Latin1 => "ISO 8859-1",
        }
    }

    /// The encoding a name stands for, however it is cased and whatever white
    /// space is around it.
    pub open spec fn named(name: Seq<char>) -> Option<Encoding> {
        let n = lowered(trim(name));
        if n == "utf8"@ || n == "utf-8"@ {
            Some(Encoding::Utf8)
        } else if n == "cp850"@ || n == "ibm850"@ || n == "850"@ {
            Some(Encoding::Cp850)
        } else if n == "cp1252"@ || n == "windows-1252"@ || n == "1252"@ {
            Some(Encoding::Cp1252)
        } else if n == "latin1"@ || n == "iso-8859-1"@ || n == "iso8859-1"@ {
            Some(Encoding::Latin1)
        } else {
            None
        }
    }

    /// The encoding a configuration file names, if it names one there is.
    ///
    /// `None` covers a hand-edited typo and `cp850-doubled`, which is retired.
    /// A caller loads the default for both: refusing the value would take the
    /// rest of the settings down with it.
    pub fn from_name(name: &str) -> (encoding: Option<Encoding>)
        ensures
            encoding == Encoding::named(name@),
    {
        let n = lowered_text(trimmed(name).as_str());
        let n = n.as_str();
        if same(n, "utf8") || same(n, "utf-8") {
            Some(Encoding::Utf8)
        } else if same(n, "cp850") || same(n, "ibm850") || same(n, "850") {
            Some(Encoding::Cp850)
        } else if same(n, "cp1252") || same(n, "windows-1252") || same(n, "1252") {
            Some(Encoding::Cp1252)
        } else if same(n, "latin1") || same(n, "iso-8859-1") || same(n, "iso8859-1") {
            Some(Encoding::Latin1)
        } else {
            None
        }
    }

    /// The encoding a configuration file gives, which is the default where it
    /// names none there is.
    pub fn loaded(name: &str) -> (encoding: Encoding)
        ensures
            encoding == match Encoding::named(name@) {
                Some(encoding) => encoding,
                None => Encoding::Utf8,
            },
    {
        match Encoding::from_name(name) {
            Some(encoding) => encoding,
            None => Encoding::Utf8,
        }
    }

    pub open spec fn spec_name(self) -> Seq<char> {
        match self {
            Encoding::Utf8 => "utf8"@,
            Encoding::Cp850 => "cp850"@,
            Encoding::Cp1252 => "cp1252"@,
            Encoding::Latin1 => "latin1"@,
        }
    }

    /// What a configuration file calls this encoding.
    pub fn name(self) -> (name: &'static str)
        ensures
            name@ == self.spec_name(),
    {
        match self {
            Encoding::Utf8 => "utf8",
            Encoding::Cp850 => "cp850",
            Encoding::Cp1252 => "cp1252",
            Encoding::Latin1 => "latin1",
        }
    }

    /// Whether this encoding is a plain single-byte codepage.
    pub open spec fn single_byte(self) -> bool {
        self != Encoding::Utf8
    }

    fn is_single_byte(self) -> (yes: bool)
        ensures
            yes == self.single_byte(),
    {
        match self {
            Encoding::Utf8 => false,
            _ => true,
        }
    }

    /// The character a byte stands for: itself in the ASCII half, whatever the
    /// codepage says in the other.
    pub open spec fn char_of(self, byte: u8) -> char {
        if byte < 0x80 {
            byte as char
        } else {
            match self {
                // ISO 8859-1 maps its high half straight onto U+0080..U+00FF.
                Encoding::Latin1 | Encoding::Utf8 => byte as char,
                Encoding::Cp850 => CP850_HIGH@[byte - 0x80],
                Encoding::Cp1252 => CP1252_HIGH@[byte - 0x80],
            }
        }
    }

    /// The byte that stands for a character, if this codepage has one.
    pub open spec fn byte_of(self, ch: char) -> Option<u8> {
        let code = ch as u32;
        if code < 0x80 {
            Some(code as u8)
        } else {
            match self {
                Encoding::Latin1 => if code <= 0xff {
                    Some(code as u8)
                } else {
                    None
                },
                Encoding::Cp850 => high_place(CP850_HIGH@, ch),
                Encoding::Cp1252 => high_place(CP1252_HIGH@, ch),
                Encoding::Utf8 => None,
            }
        }
    }

    fn high_char(self, byte: u8) -> (ch: char)
        requires
            byte >= 0x80,
        ensures
            ch == self.char_of(byte),
    {
        match self {
            Encoding::Latin1 | Encoding::Utf8 => byte as char,
            Encoding::Cp850 => CP850_HIGH[(byte - 0x80) as usize],
            Encoding::Cp1252 => CP1252_HIGH[(byte - 0x80) as usize],
        }
    }

    fn high_byte(self, ch: char) -> (byte: Option<u8>)
        requires
            ch as u32 >= 0x80,
        ensures
            byte == self.byte_of(ch),
    {
        let at = match self {
            Encoding::Latin1 => {
                let code = ch as u32;
                return if code <= 0xff {
                    Some(code as u8)
                } else {
                    None
                };
            },
            Encoding::Cp850 => position(&CP850_HIGH, ch),
            Encoding::Cp1252 => position(&CP1252_HIGH, ch),
            Encoding::Utf8 => None,
        };
        match at {
            Some(i) => Some(0x80 + i),
            None => None,
        }
    }

    /// What bytes are as UTF-8.
    pub open spec fn decoded(self, bytes: Seq<u8>) -> Seq<u8> {
        if self.single_byte() {
            encode_utf8(bytes.map_values(|b: u8| self.char_of(b)))
        } else {
            bytes
        }
    }

    /// What text is in bytes, a character the codepage does not have becoming
    /// `?`.
    pub open spec fn encoded(self, text: Seq<char>) -> Seq<u8> {
        if self.single_byte() {
            text.map_values(|ch: char| self.byte_or_mark(ch))
        } else {
            encode_utf8(text)
        }
    }

    pub open spec fn byte_or_mark(self, ch: char) -> u8 {
        match self.byte_of(ch) {
            Some(byte) => byte,
            None => 0x3f,
        }
    }

    /// Converts incoming bytes to UTF-8 for the parser.
    ///
    /// Safe to call one read at a time: every encoding here is either a
    /// passthrough or single-byte, so a read boundary has no multi-byte
    /// sequence of this making to fall inside.
    pub fn decode(self, bytes: &[u8]) -> (out: Vec<u8>)
        ensures
            out@ == self.decoded(bytes@),
    {
        if !self.is_single_byte() {
            return slice_to_vec(bytes);
        }
        let mut text = String::new();
        let mut i: usize = 0;
        while i < bytes.len()
            invariant
                i <= bytes@.len(),
                text@ =~= bytes@.map_values(|b: u8| self.char_of(b)).take(i as int),
            decreases bytes.len() - i,
        {
            let byte = bytes[i];
            if byte < 0x80 {
                text.push(byte as char);
            } else {
                text.push(self.high_char(byte));
            }
            i += 1;
        }
        assert(text@ =~= bytes@.map_values(|b: u8| self.char_of(b)));
        slice_to_vec(text.as_str().as_bytes())
    }

    /// Converts text the user typed into the bytes IRIS expects.
    ///
    /// A character with no representation in the target codepage becomes `?`,
    /// matching what a real terminal does rather than dropping it silently.
    pub fn encode(self, text: &str) -> (out: Vec<u8>)
        ensures
            out@ == self.encoded(text@),
    {
        if !self.is_single_byte() {
            return slice_to_vec(text.as_bytes());
        }
        let mut out: Vec<u8> = Vec::new();
        let chars = chars_of(text);
        let mut i: usize = 0;
        while i < chars.len()
            invariant
                i <= chars@.len(),
                chars@ == text@,
                self.single_byte(),
                out@ =~= self.encoded(text@).take(i as int),
            decreases chars.len() - i,
        {
            let ch = chars[i];
            let code = ch as u32;
            if code < 0x80 {
                out.push(code as u8);
            } else {
                match self.high_byte(ch) {
                    Some(byte) => out.push(byte),
                    None => out.push(0x3f),
                }
            }
            i += 1;
        }
        assert(out@ =~= self.encoded(text@));
        out
    }
}

/// The high byte whose place in the table holds `ch`.
pub open spec fn high_place(table: Seq<char>, ch: char) -> Option<u8> {
    match place(table, ch, 0) {
        Some(i) => Some((0x80 + i) as u8),
        None => None,
    }
}

// ---- laws ---------------------------------------------------------------

/// A name that is written to a configuration file is read as the encoding that
/// it was written for.
pub proof fn a_written_name_is_read(encoding: Encoding)
    ensures
        Encoding::named(encoding.spec_name()) == Some(encoding),
{
    reveal_strlit("utf8");
    reveal_strlit("utf-8");
    reveal_strlit("cp850");
    reveal_strlit("ibm850");
    reveal_strlit("850");
    reveal_strlit("cp1252");
    reveal_strlit("windows-1252");
    reveal_strlit("1252");
    reveal_strlit("latin1");
    let name = encoding.spec_name();
    assert(!white_space(name[0]) && !white_space(name.last()));
    assert(trim(name) =~= name);
    assert(lowered(name) =~= name);
    match encoding {
        Encoding::Utf8 => {},
        Encoding::Cp850 => {
            assert(name[0] != "utf8"@[0] && name[0] != "utf-8"@[0]);
        },
        Encoding::Cp1252 => {
            assert(name[0] != "utf8"@[0] && name[0] != "utf-8"@[0]);
            assert(name.len() != "cp850"@.len() && name[0] != "ibm850"@[0] && name[0] != "850"@[0]);
        },
        Encoding::Latin1 => {
            assert(name[0] != "utf8"@[0] && name[0] != "utf-8"@[0]);
            assert(name[0] != "cp850"@[0] && name[0] != "ibm850"@[0] && name[0] != "850"@[0]);
            assert(name[0] != "cp1252"@[0] && name[0] != "windows-1252"@[0] && name[0]
                != "1252"@[0]);
        },
    }
}

proof fn place_holds(table: Seq<char>, ch: char, from: int)
    requires
        0 <= from,
        place(table, ch, from) is Some,
    ensures
        from <= place(table, ch, from)->0 < table.len(),
        table[place(table, ch, from)->0] == ch,
    decreases table.len() - from,
{
    if table[from] != ch {
        place_holds(table, ch, from + 1);
    }
}

/// A character that the codepage has comes back from its byte.
pub proof fn a_character_comes_back(encoding: Encoding, ch: char)
    requires
        encoding.single_byte(),
        encoding.byte_of(ch) is Some,
    ensures
        encoding.char_of(encoding.byte_of(ch)->0) == ch,
{
    if ch as u32 >= 0x80 {
        match encoding {
            Encoding::Cp850 => place_holds(CP850_HIGH@, ch, 0),
            Encoding::Cp1252 => place_holds(CP1252_HIGH@, ch, 0),
            _ => {},
        }
    }
}

/// What goes out comes back the same, in one translation each way: any text at
/// all through UTF-8, and any text the codepage has through the others.
pub proof fn what_goes_out_comes_back(encoding: Encoding, text: Seq<char>)
    requires
        encoding.single_byte() ==> forall|i: int|
            0 <= i < text.len() ==> encoding.byte_of(#[trigger] text[i]) is Some,
    ensures
        encoding.decoded(encoding.encoded(text)) == encode_utf8(text),
{
    if encoding.single_byte() {
        let bytes = encoding.encoded(text);
        assert forall|i: int| 0 <= i < text.len() implies encoding.char_of(#[trigger] bytes[i])
            == text[i] by {
            a_character_comes_back(encoding, text[i]);
        }
        assert(bytes.map_values(|b: u8| encoding.char_of(b)) =~= text);
    }
}

proof fn cp850_characters_differ(i: int, j: int)
    requires
        0 <= i < j < 128,
    ensures
        CP850_HIGH@[i] != CP850_HIGH@[j],
{
}

proof fn cp1252_characters_differ(i: int, j: int)
    requires
        0 <= i < j < 128,
    ensures
        CP1252_HIGH@[i] != CP1252_HIGH@[j],
{
}

proof fn high_characters_are_high(i: int)
    requires
        0 <= i < 128,
    ensures
        CP850_HIGH@[i] as u32 >= 0x80,
        CP1252_HIGH@[i] as u32 >= 0x80,
{
}

proof fn placed_where_it_is(table: Seq<char>, i: int, from: int)
    requires
        0 <= from <= i < table.len(),
        forall|j: int| 0 <= j < i ==> #[trigger] table[j] != table[i],
    ensures
        place(table, table[i], from) == Some(i),
    decreases i - from,
{
    if from < i {
        placed_where_it_is(table, i, from + 1);
    }
}

/// A byte comes back from the character it stands for: no codepage gives two
/// bytes the same character.
pub proof fn a_byte_comes_back(encoding: Encoding, byte: u8)
    requires
        encoding.single_byte(),
    ensures
        encoding.byte_of(encoding.char_of(byte)) == Some(byte),
{
    if byte >= 0x80 {
        let i = byte - 0x80;
        high_characters_are_high(i);
        match encoding {
            Encoding::Cp850 => {
                assert forall|j: int| 0 <= j < i implies #[trigger] CP850_HIGH@[j]
                    != CP850_HIGH@[i] by {
                    cp850_characters_differ(j, i);
                }
                placed_where_it_is(CP850_HIGH@, i, 0);
            },
            Encoding::Cp1252 => {
                assert forall|j: int| 0 <= j < i implies #[trigger] CP1252_HIGH@[j]
                    != CP1252_HIGH@[i] by {
                    cp1252_characters_differ(j, i);
                }
                placed_where_it_is(CP1252_HIGH@, i, 0);
            },
            _ => {},
        }
    }
}

/// What comes in goes back out the same: the text that bytes stand for is those
/// bytes again, whatever they are.
pub proof fn what_comes_in_goes_back_out(encoding: Encoding, bytes: Seq<u8>)
    requires
        encoding.single_byte(),
    ensures
        encoding.encoded(bytes.map_values(|b: u8| encoding.char_of(b))) == bytes,
{
    let text = bytes.map_values(|b: u8| encoding.char_of(b));
    assert forall|i: int| 0 <= i < bytes.len() implies encoding.byte_or_mark(#[trigger] text[i])
        == bytes[i] by {
        a_byte_comes_back(encoding, bytes[i]);
    }
    assert(encoding.encoded(text) =~= bytes);
}

/// A character typed is one byte on a single-byte wire, and a byte that arrives
/// is one character.
pub proof fn one_character_is_one_byte(encoding: Encoding, text: Seq<char>, bytes: Seq<u8>)
    requires
        encoding.single_byte(),
    ensures
        encoding.encoded(text).len() == text.len(),
        exists|chars: Seq<char>|
            chars.len() == bytes.len() && encoding.decoded(bytes) == #[trigger] encode_utf8(chars),
{
    let chars = bytes.map_values(|b: u8| encoding.char_of(b));
    assert(encoding.decoded(bytes) == encode_utf8(chars));
}

/// ASCII is untouched by every encoding in either direction, escape sequences
/// with it.
pub proof fn ascii_is_untouched(encoding: Encoding, bytes: Seq<u8>)
    requires
        forall|i: int| 0 <= i < bytes.len() ==> #[trigger] bytes[i] < 0x80,
    ensures
        encoding.decoded(bytes) == bytes,
        encoding.encoded(bytes.map_values(|b: u8| b as char)) == bytes,
{
    let chars = bytes.map_values(|b: u8| b as char);
    assert(bytes.map_values(|b: u8| encoding.char_of(b)) =~= chars);
    assert(is_ascii_chars(chars)) by {
        assert forall|i: int| 0 <= i < chars.len() implies chars[i] as u32 <= 127 by {
            assert(bytes[i] < 0x80);
        }
    }
    is_ascii_chars_encode_utf8(chars);
    assert(encode_utf8(chars) =~= bytes);
    assert(encoding.encoded(chars) =~= bytes);
}

/// Cutting the bytes anywhere and decoding the pieces is decoding them whole.
pub proof fn reads_may_be_cut_anywhere(encoding: Encoding, first: Seq<u8>, then: Seq<u8>)
    ensures
        encoding.decoded(first + then) == encoding.decoded(first) + encoding.decoded(then),
{
    if encoding.single_byte() {
        let f = |b: u8| encoding.char_of(b);
        assert((first + then).map_values(f) =~= first.map_values(f) + then.map_values(f));
        encode_in_pieces(first.map_values(f), then.map_values(f));
    }
}

proof fn encode_in_pieces(first: Seq<char>, then: Seq<char>)
    ensures
        encode_utf8(first + then) == encode_utf8(first) + encode_utf8(then),
    decreases first.len(),
{
    if first.len() == 0 {
        assert(first + then =~= then);
        assert(encode_utf8(first) + encode_utf8(then) =~= encode_utf8(then));
    } else {
        encode_in_pieces(first.drop_first(), then);
        assert((first + then).drop_first() =~= first.drop_first() + then);
        assert(encode_utf8(first + then) =~= encode_utf8(first) + encode_utf8(then));
    }
}

} // verus!
