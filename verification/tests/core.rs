use quasar::borsh::{write_bytes, write_u32_le, write_u64_le, BorshString, BorshVec};
use quasar::cpi::{assign, create_account, transfer, CpiCall, InstructionAccount, System};
use quasar::seeds::{check_seeds_target, SeedSet, SeedType, SeedValue};

#[test]
fn u32_is_written_little_endian_in_place() {
    let mut buf = vec![0xAAu8; 6];
    write_u32_le(&mut buf, 1, 0x0102_0304);
    assert_eq!(buf, vec![0xAA, 4, 3, 2, 1, 0xAA]);
}

#[test]
fn u64_is_written_little_endian_in_place() {
    let mut buf = vec![0u8; 8];
    write_u64_le(&mut buf, 0, 0x0102_0304_0506_0708);
    assert_eq!(buf, vec![8, 7, 6, 5, 4, 3, 2, 1]);
}

#[test]
fn bytes_are_copied_at_offset() {
    let mut buf = vec![0u8; 5];
    write_bytes(&mut buf, 2, &[7, 8]);
    assert_eq!(buf, vec![0, 0, 7, 8, 0]);
}

#[test]
fn borsh_string_writes_length_then_bytes() {
    let mut buf = vec![0xAAu8; 8];
    let end = BorshString::from_str("hi").write_to(&mut buf, 1);
    assert_eq!(end, 7);
    assert_eq!(buf, vec![0xAA, 2, 0, 0, 0, b'h', b'i', 0xAA]);
}

#[test]
fn borsh_string_of_multibyte_text_counts_bytes() {
    let s = BorshString::from_str("é");
    assert_eq!(s.0, &[0xC3, 0xA9]);
    assert_eq!(s.serialized_len(), 6);
}

#[test]
fn borsh_string_serialized_len_adds_prefix() {
    assert_eq!(BorshString::new(b"abc").serialized_len(), 7);
    assert_eq!(BorshString::new(b"").serialized_len(), 4);
}

#[test]
fn borsh_string_from_byte_slice() {
    let s: BorshString = (&b"xy"[..]).into();
    assert_eq!(s.0, b"xy");
}

#[test]
fn borsh_vec_writes_count_then_elements() {
    let mut buf = vec![0u8; 8];
    let end = BorshVec::new(&[1, 2, 3, 4], 2).write_to(&mut buf, 0);
    assert_eq!(end, 8);
    assert_eq!(buf, vec![2, 0, 0, 0, 1, 2, 3, 4]);
}

#[test]
fn empty_borsh_vec_is_a_zero_count() {
    let v = BorshVec::empty();
    assert_eq!(v.serialized_len(), 4);
    let mut buf = vec![9u8; 4];
    let end = v.write_to(&mut buf, 0);
    assert_eq!(end, 4);
    assert_eq!(buf, vec![0, 0, 0, 0]);
}

#[test]
fn borsh_vec_of_bytes_counts_each_byte() {
    let mut buf = vec![0u8; 7];
    let end = BorshVec::from_bytes(&[9, 8, 7]).write_to(&mut buf, 0);
    assert_eq!(end, 7);
    assert_eq!(buf, vec![3, 0, 0, 0, 9, 8, 7]);
    let from: BorshVec = (&[5u8, 6][..]).into();
    assert_eq!(from.serialized_len(), 6);
}

fn flags(a: &InstructionAccount) -> ([u8; 32], bool, bool) {
    (a.address, a.is_writable, a.is_signer)
}

#[test]
fn system_program_id_is_all_zero() {
    assert_eq!(System::id(), [0u8; 32]);
}

#[test]
fn transfer_builds_discriminator_two_and_lamports() {
    let call = transfer([1; 32], [2; 32], 500);
    assert_eq!(call.program_id, [0u8; 32]);
    assert_eq!(call.data, vec![2, 0, 0, 0, 0xF4, 1, 0, 0, 0, 0, 0, 0]);
    assert_eq!(call.accounts.len(), 2);
    assert_eq!(flags(&call.accounts[0]), ([1; 32], true, true));
    assert_eq!(flags(&call.accounts[1]), ([2; 32], true, false));
}

#[test]
fn create_account_builds_lamports_space_and_owner() {
    let call = create_account([1; 32], [2; 32], 1_000, 165, [3; 32]);
    let mut expected = vec![0u8, 0, 0, 0];
    expected.extend_from_slice(&1_000u64.to_le_bytes());
    expected.extend_from_slice(&165u64.to_le_bytes());
    expected.extend_from_slice(&[3u8; 32]);
    assert_eq!(call.data.len(), 52);
    assert_eq!(call.data, expected);
    assert_eq!(flags(&call.accounts[0]), ([1; 32], true, true));
    assert_eq!(flags(&call.accounts[1]), ([2; 32], true, true));
}

#[test]
fn assign_builds_discriminator_one_and_owner() {
    let call = assign([4; 32], [5; 32]);
    let mut expected = vec![1u8, 0, 0, 0];
    expected.extend_from_slice(&[5u8; 32]);
    assert_eq!(call.data, expected);
    assert_eq!(call.accounts.len(), 1);
    assert_eq!(flags(&call.accounts[0]), ([4; 32], true, true));
}

#[test]
fn cpi_call_keeps_its_parts() {
    let call = CpiCall::new([7; 32], vec![InstructionAccount::writable([8; 32])], vec![1, 2]);
    assert_eq!(call.program_id, [7; 32]);
    assert_eq!(call.data, vec![1, 2]);
    assert_eq!(flags(&call.accounts[0]), ([8; 32], true, false));
}

#[test]
fn seed_types_are_named_by_their_rust_type() {
    assert_eq!(SeedType::from_ident("Address"), Ok(SeedType::Address));
    assert_eq!(SeedType::from_ident("u8"), Ok(SeedType::U8));
    assert_eq!(SeedType::from_ident("u16"), Ok(SeedType::U16));
    assert_eq!(SeedType::from_ident("u32"), Ok(SeedType::U32));
    assert_eq!(SeedType::from_ident("u64"), Ok(SeedType::U64));
    assert_eq!(
        SeedType::from_ident("i32"),
        Err("unsupported seed type; expected Address, u8, u16, u32, or u64".to_string())
    );
}

#[test]
fn seed_values_are_stored_little_endian() {
    assert_eq!(SeedValue::U8(7).stored_bytes(), vec![7]);
    assert_eq!(SeedValue::U16(0x0102).stored_bytes(), vec![2, 1]);
    assert_eq!(SeedValue::U32(1).stored_bytes(), vec![1, 0, 0, 0]);
    assert_eq!(SeedValue::U64(0x0100).stored_bytes(), vec![0, 1, 0, 0, 0, 0, 0, 0]);
    assert_eq!(SeedValue::Address([9; 32]).stored_bytes(), vec![9u8; 32]);
}

#[test]
fn seed_set_slices_are_prefix_then_params_then_bump() {
    let set = SeedSet { prefix: b"vault".to_vec(), params: vec![SeedValue::U8(7), SeedValue::U32(1)] };
    assert_eq!(set.as_slices(), vec![b"vault".to_vec(), vec![7], vec![1, 0, 0, 0]]);
    let bumped = set.with_bump(255);
    assert_eq!(bumped.bump, 255);
    assert_eq!(
        bumped.as_slices(),
        vec![b"vault".to_vec(), vec![7], vec![1, 0, 0, 0], vec![255]]
    );
}

#[test]
fn seeds_derive_needs_a_unit_struct_with_seeds() {
    assert_eq!(
        check_seeds_target(false, false, true),
        Err("#[derive(Seeds)] can only be applied to a unit struct".to_string())
    );
    assert_eq!(
        check_seeds_target(true, true, true),
        Err("#[derive(Seeds)] requires a unit struct (no fields)".to_string())
    );
    assert_eq!(
        check_seeds_target(true, false, false),
        Err("missing #[seeds(...)] attribute".to_string())
    );
    assert_eq!(check_seeds_target(true, false, true), Ok(()));
}

use quasar::size_record::{recorded_size, size_delta, size_delta_text, updated_record};

#[test]
fn recorded_size_reads_the_first_matching_line() {
    let record = "target/deploy/a.so 100\ntarget/deploy/b.so 200\n";
    assert_eq!(recorded_size(record, "target/deploy/b.so"), Some(200));
    assert_eq!(recorded_size(record, "target/deploy/a.so"), Some(100));
    assert_eq!(recorded_size(record, "target/deploy/c.so"), None);
    assert_eq!(recorded_size("", "target/deploy/a.so"), None);
    assert_eq!(recorded_size("k abc\nk 5", "k"), None);
    assert_eq!(recorded_size("k 1 2\n", "k"), Some(2));
    assert_eq!(recorded_size("k 7\r\n", "k"), Some(7));
}

#[test]
fn size_delta_shows_growth_and_shrink() {
    assert_eq!(size_delta_text(None, 2048, false), "");
    assert_eq!(size_delta_text(Some(2048), 2048, false), "");
    assert_eq!(size_delta_text(Some(1000), 2024, false), ", +1.0 KB");
    assert_eq!(size_delta_text(Some(3000), 1000, false), ", -2.0 KB");
    assert_eq!(size_delta_text(Some(10), 15, false), ", +5 B");
    assert_eq!(size_delta_text(Some(1000), 2024, true), ", \x1b[38;5;196m+1.0 KB\x1b[0m");
    assert_eq!(size_delta_text(Some(3000), 1000, true), ", \x1b[38;5;83m-2.0 KB\x1b[0m");
    assert_eq!(size_delta("p.so 4096\n", "p.so", 4096 + 512, false), ", +512 B");
    assert_eq!(size_delta("q.so 4096\n", "p.so", 100, false), "");
}

#[test]
fn updated_record_replaces_the_line_of_the_key() {
    assert_eq!(updated_record("a 1\nb 2\n", "a", 5), "b 2\na 5");
    assert_eq!(updated_record("", "x", 7), "x 7");
    assert_eq!(updated_record("b 2\r\nc 3\n", "a", 1), "b 2\nc 3\na 1");
    assert_eq!(updated_record("a 1\nab 3\nz 4", "a", 2), "z 4\na 2");
}

#[test]
fn saved_size_reads_back_and_keeps_others() {
    let before = "target/deploy/a.so 100\ntarget/deploy/b.so 200\n";
    let after = updated_record(before, "target/deploy/a.so", 4242);
    assert_eq!(recorded_size(&after, "target/deploy/a.so"), Some(4242));
    assert_eq!(recorded_size(&after, "target/deploy/b.so"), Some(200));
}

#[test]
fn borsh_string_from_str_takes_utf8_bytes() {
    let s = quasar::borsh::BorshString::from("hé");
    assert_eq!(s.0, "hé".as_bytes());
    assert_eq!(s.serialized_len(), 4 + 3);
}
