use new_iris_terminal::term::encoding::Encoding;

#[test]
fn ascii_is_untouched_by_every_encoding() {
    for enc in Encoding::ALL {
        assert_eq!(enc.decode(b"USER>"), b"USER>".to_vec(), "{enc:?}");
        assert_eq!(enc.encode("USER>"), b"USER>".to_vec(), "{enc:?}");
    }
}

/// Covers the legacy case: an instance whose I/O translation emits CP850
/// over Telnet, where there is no console to have re-encoded it.
#[test]
fn cp850_decodes_accented_text_from_a_legacy_instance() {
    // 'â' is 0x83 in CP850.
    let bytes = b"Inst\x83ncia do IRIS desconhecida";
    let decoded = String::from_utf8(Encoding::Cp850.decode(bytes)).unwrap();
    assert_eq!(decoded, "Instância do IRIS desconhecida");
}

#[test]
fn cp1252_and_latin1_agree_on_shared_characters() {
    assert_eq!(
        Encoding::Cp1252.decode(b"\xe7\xe3"),
        Encoding::Latin1.decode(b"\xe7\xe3")
    );
    assert_eq!(
        String::from_utf8(Encoding::Latin1.decode(b"\xe7\xe3")).unwrap(),
        "çã"
    );
}

/// The default must not touch the stream: a session sends UTF-8, and
/// transcoding it would corrupt every non-ASCII character.
#[test]
fn utf8_passes_through_unchanged() {
    let bytes = "Instância".as_bytes();
    assert_eq!(Encoding::Utf8.decode(bytes), bytes.to_vec());
    assert_eq!(Encoding::Utf8.encode("Instância"), bytes.to_vec());
}

/// The rule the module exists to keep: what goes out comes back the same,
/// through every encoding, in one translation each way.
#[test]
fn every_encoding_round_trips_symmetrically() {
    for enc in Encoding::ALL {
        let text = "Instância não Configuração";
        let encoded = enc.encode(text);
        let decoded = String::from_utf8(enc.decode(&encoded)).unwrap();
        assert_eq!(decoded, text, "{enc:?}");
    }
}

/// The other half of that rule, and the one the retired console repair
/// broke: a character typed has to be one character on the far side too, or
/// every gesture that reads the line back off the screen is out by one per
/// accent.
#[test]
fn a_character_typed_is_one_character_on_the_wire() {
    for enc in Encoding::ALL {
        let sent = enc.encode("ó");
        let back = String::from_utf8(enc.decode(&sent)).unwrap();
        assert_eq!(back.chars().count(), 1, "{enc:?} sent {sent:02x?}");
    }
}

#[test]
fn unrepresentable_characters_become_question_marks() {
    // A CJK character has no CP850 slot.
    assert_eq!(Encoding::Cp850.encode("a漢b"), b"a?b".to_vec());
}

#[test]
fn escape_sequences_survive_transcoding() {
    // Decoding must not disturb CSI bytes, which are ASCII everywhere.
    let bytes = b"\x1b[2J\x1b[1;1Hol\xa0";
    let out = Encoding::Cp850.decode(bytes);
    assert!(out.starts_with(b"\x1b[2J\x1b[1;1Hol"));
}

/// Genuine box drawing has to survive, because ERP full-screen routines
/// draw with it. The retired repair is what put that at risk.
#[test]
fn box_drawing_passes_through_untouched() {
    for border in ["├───┤", "┌──────┐", "│ x │", "╔═══╗"]
    {
        let out = String::from_utf8(Encoding::Utf8.decode(border.as_bytes())).unwrap();
        assert_eq!(out, border, "corrupted box drawing: {border}");
    }
}

/// Every name a settings file can carry, including the ones this build no
/// longer writes, resolves without taking the file down with it.
#[test]
fn a_name_this_build_does_not_have_loads_as_utf8() {
    let held = |name: &str| Encoding::loaded(name);

    // The retired console repair, which a profile written by 0.3.0 still
    // carries: it must not refuse to load, and it must not stay.
    assert_eq!(held("cp850-doubled"), Encoding::Utf8);
    assert_eq!(held("nonsense"), Encoding::Utf8);
    assert_eq!(held(""), Encoding::Utf8);

    // And the names this build does write survive a round trip.
    for enc in Encoding::ALL {
        let name = enc.name();
        assert_eq!(held(name), enc, "{enc:?} was written as {name:?}");
    }
}
