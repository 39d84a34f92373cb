use assist::log_window::{append_lines, sync_visible, Visibility, WindowStep, LOG_BUF_LIMIT};
use assist::name_table::NameTable;
use assist::profile::{
    load, profile_file_name, read_player_name, sanitize_filename, StoredProfile,
};
use assist::settings::AuxSettings;
use assist::spell_book::{
    check_head, ensure_fresh, is_fresh, read_current_book_ptr, BookEntry, BookHead, SpellBook,
    SpellBookError,
};
use assist::spell_db::{ensure_built, strip_paren_suffix, SpellDb, SpellDbError, SpellRecord};
use assist::sprite_types::{
    contains_bytes, load_runtime_sprite_types, parse_runtime_sprite_type_records,
    parse_sprite_record_header, parse_sprite_type, resolve_runtime_sprite_type,
};
use assist::text::{
    decimal_chars, eq_ignore_ascii_case, find_from, from_chars, is_blank, to_chars, trim,
};
use std::collections::HashMap;

#[test]
fn texts_are_trimmed_and_searched() {
    assert_eq!(trim(" \t a b\u{3000}\n"), "a b");
    assert_eq!(trim("   "), "");
    assert!(is_blank("\u{2003}"));
    assert!(!is_blank(" x "));
    let v = to_chars("abcabc");
    assert_eq!(find_from(&v, &['c', 'a'], 0), Some(2));
    assert_eq!(find_from(&v, &['c', 'a'], 3), None);
    assert!(eq_ignore_ascii_case(&to_chars("SpriTe"), &to_chars("sprite")));
    assert!(!eq_ignore_ascii_case(&to_chars("É"), &to_chars("é")));
}

#[test]
fn numbers_read_as_they_were_written() {
    for n in [0u64, 7, 10, 1_234_567_890, u64::MAX] {
        assert_eq!(from_chars(&decimal_chars(n)), n.to_string());
    }
}

#[test]
fn sanitizing_twice_changes_nothing() {
    let once = sanitize_filename("a<b>c:\"d\"/e\\f|g?h*");
    assert_eq!(once, "a_b_c__d__e_f_g_h_");
    assert_eq!(sanitize_filename(&once), once);
    assert_eq!(profile_file_name("a/b"), "a_b.json");
}

#[test]
fn names_of_players_are_trimmed() {
    let raw: &[u8] = b" Me \0";
    assert_eq!(
        read_player_name(Some(1), Some(2), Some(raw), " Me "),
        Some("Me".to_string())
    );
    assert_eq!(read_player_name(Some(0), Some(2), Some(raw), "Me"), None);
    assert_eq!(read_player_name(Some(1), None, Some(raw), "Me"), None);
    assert_eq!(read_player_name(Some(1), Some(2), Some(b"\0"), "Me"), None);
    assert_eq!(read_player_name(Some(1), Some(2), Some(raw), "  "), None);
}

#[test]
fn settings_are_loaded_under_their_name() {
    let mut kept = AuxSettings::default();
    kept.current_profile = "old".to_string();
    kept.buff_enabled = true;
    let s = load("new", StoredProfile::Settings(kept));
    assert_eq!(s.current_profile, "new");
    assert!(s.buff_enabled);
    assert_eq!(load("new", StoredProfile::Nothing).current_profile, "new");
    assert_eq!(load("new", StoredProfile::NoPlace).current_profile, "");
}

#[test]
fn the_window_shows_what_is_wanted() {
    assert_eq!(sync_visible(Visibility::Shown, false), WindowStep::Show);
    assert_eq!(sync_visible(Visibility::Shown, true), WindowStep::Stay);
    assert_eq!(sync_visible(Visibility::Hidden, true), WindowStep::Hide);
    assert_eq!(sync_visible(Visibility::Hidden, false), WindowStep::Stay);
    assert_eq!(sync_visible(Visibility::Close, true), WindowStep::Close);
}

#[test]
fn the_log_keeps_its_end() {
    let lines = vec!["one".to_string(), "two".to_string()];
    assert_eq!(append_lines("zero\r\n", &lines), "zero\r\none\r\ntwo\r\n");
    assert_eq!(append_lines("zero", &vec![]), "zero");
    let full = "x".repeat(LOG_BUF_LIMIT);
    let kept = append_lines(&full, &lines);
    assert_eq!(kept.len(), LOG_BUF_LIMIT);
    assert!(kept.ends_with("one\r\ntwo\r\n"));
    let wide = "測".repeat(LOG_BUF_LIMIT / 3);
    let kept = append_lines(&wide, &lines);
    assert!(kept.len() <= LOG_BUF_LIMIT);
    assert!(kept.starts_with('測'));
}

#[test]
fn tables_keep_the_first_or_the_highest() {
    let mut t = NameTable::new();
    t.insert_first("a".to_string(), 2);
    t.insert_first("a".to_string(), 9);
    assert_eq!(t.lookup("a"), Some(2));
    t.insert_highest("a".to_string(), 9);
    t.insert_highest("a".to_string(), 3);
    t.insert_highest("b".to_string(), 1);
    assert_eq!(t.lookup("a"), Some(9));
    assert_eq!(t.len(), 2);
    assert_eq!(t.names(), vec!["a", "b"]);
    assert_eq!(t.lookup("c"), None);
}

fn record(ptr: u32, full: &str) -> SpellRecord {
    SpellRecord { ptr, raw: Some(full.as_bytes().to_vec()), full: full.to_string() }
}

#[test]
fn the_client_s_spells_are_listed() {
    let mut records: Vec<SpellRecord> = (0..256).map(|_| record(0, "")).collect();
    records[3] = record(1, "加速術 (40/0)");
    records[9] = record(2, "加速術(50/0)");
    records[10] = record(3, "保護罩");
    records[11] = SpellRecord { ptr: 4, raw: None, full: "x".to_string() };
    let longest = "a".repeat(63);
    records[12] = record(5, &longest);
    let damaged = "b".repeat(64);
    records[13] = record(6, &damaged);
    let db = SpellDb::build(Some(0x1000), Some(&records)).unwrap();
    assert_eq!(db.lookup(&longest), Some(12));
    assert_eq!(db.lookup(&damaged), None);
    assert_eq!(db.lookup("加速術"), Some(3));
    assert_eq!(db.lookup("保護罩"), Some(10));
    assert_eq!(db.lookup("x"), None);
    assert_eq!((db.entries(), db.unique_names()), (4, 3));
    assert_eq!(db.names_iter(), vec!["加速術", "保護罩", longest.as_str()]);
}

#[test]
fn spell_tables_that_cannot_be_read_are_told_apart() {
    assert_eq!(SpellDb::build(None, None).unwrap_err(), SpellDbError::PointerUnreadable);
    assert_eq!(SpellDb::build(Some(0), None).unwrap_err(), SpellDbError::PointerNull);
    assert_eq!(SpellDb::build(Some(1), None).unwrap_err(), SpellDbError::ArrayUnreadable);
    let mut cache = None;
    assert!(!ensure_built(&mut cache, Err(SpellDbError::PointerNull)));
    assert!(ensure_built(&mut cache, Ok(SpellDb::default())));
    assert!(ensure_built(&mut cache, Err(SpellDbError::PointerNull)));
}

fn learnt(packed: u32, level: u32, full: &str) -> BookEntry {
    let mut head = vec![0u8; 16];
    head[4..8].copy_from_slice(&packed.to_le_bytes());
    head[12..16].copy_from_slice(&level.to_le_bytes());
    BookEntry {
        ptr: 1,
        head: Some(head),
        raw: Some(full.as_bytes().to_vec()),
        full: full.to_string(),
    }
}

#[test]
fn the_highest_learnt_number_counts() {
    let head = BookHead { book_ptr: Some(7), count: Some(4), array_ptr: Some(9) };
    let entries = vec![
        learnt(42, 1, "加速術 (40/0)"),
        learnt(43, 1, "加速術 (50/0)"),
        learnt(41, 1, "加速術"),
        learnt(99, 0, "保護罩"),
    ];
    let book = SpellBook::build(&head, Some(&entries)).unwrap();
    assert_eq!(book.lookup("加速術"), Some(43));
    assert_eq!(book.lookup("保護罩"), None);
    assert_eq!((book.unique_names(), book.book_ptr), (1, 7));
    assert_eq!(book.names_iter(), vec!["加速術"]);
}

#[test]
fn every_fault_of_a_book_has_its_name() {
    let ok = BookHead { book_ptr: Some(7), count: Some(1), array_ptr: Some(9) };
    let fault = |head: BookHead| check_head(&head).unwrap_err();
    assert_eq!(check_head(&ok), Ok(1));
    assert_eq!(fault(BookHead { book_ptr: None, ..ok }), SpellBookError::PointerUnreadable);
    assert_eq!(fault(BookHead { book_ptr: Some(0), ..ok }), SpellBookError::PointerNull);
    assert_eq!(fault(BookHead { count: None, ..ok }), SpellBookError::CountUnreadable);
    assert_eq!(fault(BookHead { array_ptr: None, ..ok }), SpellBookError::ArrayPointerUnreadable);
    assert_eq!(fault(BookHead { count: Some(0), ..ok }), SpellBookError::Empty);
    assert_eq!(fault(BookHead { count: Some(1025), ..ok }), SpellBookError::CountTooLarge);
    assert_eq!(SpellBook::build(&ok, None).unwrap_err(), SpellBookError::ArrayUnreadable);
}

#[test]
fn books_are_kept_while_they_are_fresh() {
    let book = |ptr: u32| SpellBook { table: NameTable::new(), book_ptr: ptr };
    let mut cache = None;
    assert!(!ensure_fresh(&mut cache, 5, Err(SpellBookError::Empty)));
    assert!(ensure_fresh(&mut cache, 5, Ok(book(5))));
    assert!(is_fresh(&cache, 5));
    assert!(ensure_fresh(&mut cache, 5, Err(SpellBookError::Empty)));
    assert!(!ensure_fresh(&mut cache, 6, Err(SpellBookError::Empty)));
    assert!(ensure_fresh(&mut cache, 6, Ok(book(6))));
    assert!(!is_fresh(&cache, 5));
    assert_eq!(read_current_book_ptr(None), 0);
    assert_eq!(read_current_book_ptr(Some(3)), 3);
}

#[test]
fn names_without_a_cost_are_only_trimmed() {
    assert_eq!(strip_paren_suffix("  加速術 "), "加速術");
    assert_eq!(strip_paren_suffix("a (1/2"), "a (1/2");
    assert_eq!(strip_paren_suffix("a (x) (1/2)"), "a (x)");
}

#[test]
fn sprite_lines_have_a_number_and_a_type() {
    assert_eq!(parse_sprite_record_header(&to_chars("#94 48 sword orc")), Some((94, None)));
    assert_eq!(parse_sprite_record_header(&to_chars("3864 48=94 orc")), Some((3864, Some(94))));
    assert_eq!(parse_sprite_record_header(&to_chars("orc 48")), None);
    assert_eq!(parse_sprite_record_header(&to_chars("70000 48")), None);
    assert_eq!(parse_sprite_type(&to_chars("x 102.type(10) y")), Some(10));
    assert_eq!(parse_sprite_type(&to_chars("x 102.type(10")), None);
    assert_eq!(parse_sprite_type(&to_chars("x 102.type(300)")), None);
}

#[test]
fn broken_bytes_do_not_hide_the_types_around_them() {
    let raw = b"94 48 orc\xFF\xFE 102.type(10)\n";
    let records = parse_runtime_sprite_type_records(raw);
    assert_eq!(records.direct_types.get(&94), Some(&10));
}

#[test]
fn likeness_is_followed_so_far() {
    let direct = HashMap::from([(1u16, 10u8), (7, 3)]);
    let aliases = HashMap::from([(2u16, 1u16), (3, 2), (7, 1), (8, 9), (9, 8)]);
    assert_eq!(resolve_runtime_sprite_type(1, &direct, &aliases), Some(10));
    assert_eq!(resolve_runtime_sprite_type(2, &direct, &aliases), Some(10));
    assert_eq!(resolve_runtime_sprite_type(3, &direct, &aliases), Some(10));
    assert_eq!(resolve_runtime_sprite_type(7, &direct, &aliases), Some(3));
    assert_eq!(resolve_runtime_sprite_type(8, &direct, &aliases), None);
    assert_eq!(resolve_runtime_sprite_type(5, &direct, &aliases), None);
}

#[test]
fn only_long_lists_are_the_client_s() {
    assert!(contains_bytes(b"abc", b"bc"));
    assert!(!contains_bytes(b"abc", b"cb"));
    let mut list = String::new();
    for i in 1..=150 {
        list.push_str(&format!("{} 48 thing {} 102.type(10)\n", i, i));
    }
    let types = load_runtime_sprite_types(0x0200_0000, list.as_bytes()).unwrap();
    assert_eq!(types.by_sprite.len(), 150);
    assert_eq!(types.source_addr, Some(0x0200_0000));
    assert!(load_runtime_sprite_types(0x0200_0000, b"1 48 thing 102.type(10)\n").is_none());
}
