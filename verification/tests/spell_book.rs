use assist::spell_book::SpellBook;
use assist::name_table::NameTable;

fn fake_book(book_ptr: u32) -> SpellBook {
    let mut table = NameTable::new();
    table.insert_first("加速術".to_string(), 0xDEADBEEF);
    SpellBook { table, book_ptr }
}

#[test]
fn fresh_cache_matching_ptr_is_not_stale() {
    let book = fake_book(0x12345678);
    assert!(!book.is_stale_for(0x12345678));
}

#[test]
fn cache_with_different_ptr_is_stale() {
    let book = fake_book(0x12345678);
    assert!(book.is_stale_for(0xAABBCCDD));
}

#[test]
fn zero_current_ptr_treated_as_stale() {
    let book = fake_book(0x12345678);
    assert!(book.is_stale_for(0));
}

#[test]
fn default_book_with_zero_ptr_is_stale_against_real_ptr() {
    let book = SpellBook::default();
    assert!(book.is_stale_for(0x12345678));
}
