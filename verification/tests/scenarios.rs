use de8086::listing::{Listing, RunError};
use de8086::run;
use de8086::writer::WriterOptions;

fn lines_of(bytes: &[u8]) -> String {
    let listing: Listing = run("image", bytes, WriterOptions { verbose: false }).unwrap();
    let text = String::from_utf8(listing.text).unwrap();
    let banner = "; image\n\nbits 16\n\n";
    assert!(text.starts_with(banner));
    text[banner.len()..].to_string()
}

#[test]
fn mov_register_to_register() {
    assert_eq!(lines_of(&[0x89, 0xDC]), "mov sp, bx\n");
}

#[test]
fn mov_direct_address_to_register() {
    assert_eq!(lines_of(&[0x8B, 0x1E, 0x12, 0x34]), "mov bx, [13330]\n");
}

#[test]
fn mov_register_to_memory_with_word_displacement() {
    assert_eq!(lines_of(&[0x89, 0x9A, 0xAB, 0xCD]), "mov [bp+si-12885], bx\n");
}

#[test]
fn mov_immediate_to_register() {
    assert_eq!(lines_of(&[0xBC, 0x12, 0x34]), "mov sp, 0x3412\n");
    assert_eq!(lines_of(&[0xB1, 0x0C]), "mov cl, 0x0c\n");
}

#[test]
fn mov_memory_to_accumulator() {
    assert_eq!(lines_of(&[0xA1, 0x12, 0x34]), "mov ax, [13330]\n");
    assert_eq!(lines_of(&[0xA0, 0x12, 0x34]), "mov al, [13330]\n");
}

#[test]
fn mov_accumulator_to_memory() {
    assert_eq!(lines_of(&[0xA3, 0x12, 0x34]), "mov [13330], ax\n");
    assert_eq!(lines_of(&[0xA2, 0x12, 0x34]), "mov [13330], al\n");
}

#[test]
fn jump_to_itself_gets_its_label_before_it() {
    assert_eq!(lines_of(&[0x74, 0xFE]), "loc_0:\nje loc_0\n");
}

#[test]
fn backward_jump_to_the_first_instruction() {
    // the displacement counts from the end of the jump: -6 leads to offset 0
    assert_eq!(
        lines_of(&[0x01, 0xD8, 0x29, 0xD8, 0x74, 0xFA]),
        "loc_0:\nadd ax, bx\nsub ax, bx\nje loc_0\n"
    );
}

#[test]
fn backward_jump_to_the_previous_instruction() {
    // -4 from the end of the jump at offset 4 leads to offset 2
    assert_eq!(
        lines_of(&[0x01, 0xD8, 0x29, 0xD8, 0x74, 0xFC]),
        "add ax, bx\nloc_0:\nsub ax, bx\nje loc_0\n"
    );
}

#[test]
fn later_label_goes_behind_an_earlier_inserted_one() {
    // add, sub, je to the add, je to the sub: the header of the second
    // label is inserted where the sub stands after the first insertion
    assert_eq!(
        lines_of(&[0x01, 0xD8, 0x29, 0xD8, 0x74, 0xFA, 0x74, 0xFA]),
        "loc_0:\nadd ax, bx\nloc_1:\nsub ax, bx\nje loc_0\nje loc_1\n"
    );
}

#[test]
fn label_of_a_prefixed_instruction_goes_before_the_prefix() {
    // rep movsb, then a jump back to the prefix byte
    assert_eq!(
        lines_of(&[0x90, 0xF3, 0xA4, 0x74, 0xFC]),
        "xchg ax, ax\nloc_0:\nrep movsb \nje loc_0\n"
    );
}

#[test]
fn repeat_prefix_stands_on_the_line_of_its_instruction() {
    assert_eq!(lines_of(&[0xF3, 0xA6]), "rep cmpsb \n");
    assert_eq!(lines_of(&[0xF2, 0xA7]), "rep cmpsw \n");
}

#[test]
fn lock_prefix_stands_on_the_line_of_its_instruction() {
    assert_eq!(lines_of(&[0xF0, 0x86, 0x07]), "lock xchg al, [bx]\n");
}

#[test]
fn segment_override_stands_before_the_memory_operand() {
    assert_eq!(
        lines_of(&[0x26, 0x8B, 0x1E, 0x12, 0x34]),
        "mov bx, es:[13330]\n"
    );
    assert_eq!(lines_of(&[0x2E, 0x89, 0x07]), "mov cs:[bx], ax\n");
    assert_eq!(lines_of(&[0x36, 0x8A, 0x04]), "mov al, ss:[si]\n");
    assert_eq!(lines_of(&[0x3E, 0x8A, 0x05]), "mov al, ds:[di]\n");
}

#[test]
fn segment_override_expires_without_a_memory_operand() {
    assert_eq!(
        lines_of(&[0x26, 0x89, 0xD8, 0x8B, 0x07]),
        "mov ax, bx\nmov ax, [bx]\n"
    );
}

#[test]
fn forward_jumps_get_their_label_when_the_target_is_reached() {
    // jmp short +2 over one instruction, then two more instructions
    assert_eq!(
        lines_of(&[0xEB, 0x02, 0x01, 0xD8, 0x29, 0xD8]),
        "jmp loc_0\nadd ax, bx\nloc_0:\nsub ax, bx\n"
    );
}

#[test]
fn two_jumps_to_one_target_share_a_label() {
    // je +4, jne +2, add, sub: both jumps lead to the sub at offset 6
    assert_eq!(
        lines_of(&[0x74, 0x04, 0x75, 0x02, 0x01, 0xD8, 0x29, 0xD8]),
        "je loc_0\njne loc_0\nadd ax, bx\nloc_0:\nsub ax, bx\n"
    );
}

#[test]
fn labels_are_numbered_in_the_order_of_first_reference() {
    // the first jump leads further than the second, yet it is label 0
    assert_eq!(
        lines_of(&[0x74, 0x04, 0x75, 0x00, 0x01, 0xD8, 0x29, 0xD8]),
        "je loc_0\njne loc_1\nloc_1:\nadd ax, bx\nloc_0:\nsub ax, bx\n"
    );
}

#[test]
fn direct_call_and_jump_within_the_segment() {
    assert_eq!(lines_of(&[0xE8, 0x00, 0x00, 0x90]), "call loc_0\nloc_0:\nxchg ax, ax\n");
    assert_eq!(lines_of(&[0x90, 0xE9, 0xFC, 0xFF]), "loc_0:\nxchg ax, ax\njmp loc_0\n");
}

#[test]
fn arithmetic_between_register_and_memory() {
    assert_eq!(lines_of(&[0x03, 0x18]), "add bx, [bx+si]\n");
    assert_eq!(lines_of(&[0x03, 0x5E, 0x00]), "add bx, [bp]\n");
    assert_eq!(lines_of(&[0x2B, 0x5E, 0x04]), "sub bx, [bp+4]\n");
    assert_eq!(lines_of(&[0x39, 0x5E, 0xFC]), "cmp [bp-4], bx\n");
    assert_eq!(lines_of(&[0x10, 0xC8]), "adc al, cl\n");
    assert_eq!(lines_of(&[0x1B, 0xC3]), "sbb ax, bx\n");
    assert_eq!(lines_of(&[0x21, 0xC8]), "and ax, cx\n");
    assert_eq!(lines_of(&[0x09, 0xC8]), "or ax, cx\n");
    assert_eq!(lines_of(&[0x31, 0xC8]), "xor ax, cx\n");
    assert_eq!(lines_of(&[0x85, 0xCB]), "test bx, cx\n");
    assert_eq!(lines_of(&[0x87, 0xCB]), "xchg cx, bx\n");
}

#[test]
fn arithmetic_immediate_to_accumulator_is_signed_decimal() {
    assert_eq!(lines_of(&[0x05, 0xE8, 0x03]), "add ax, 1000\n");
    assert_eq!(lines_of(&[0x04, 0xE2]), "add al, -30\n");
    assert_eq!(lines_of(&[0x2D, 0xFF, 0xFF]), "sub ax, -1\n");
    assert_eq!(lines_of(&[0x3C, 0x09]), "cmp al, 9\n");
    assert_eq!(lines_of(&[0xA9, 0x00, 0x80]), "test ax, -32768\n");
}

#[test]
fn arithmetic_immediate_to_register_or_memory() {
    // sign flag and word flag: one immediate byte, word operand
    assert_eq!(lines_of(&[0x83, 0xC3, 0x05]), "add bx, 0x0005\n");
    assert_eq!(lines_of(&[0x83, 0xEB, 0xFF]), "sub bx, 0xffff\n");
    assert_eq!(lines_of(&[0x83, 0x07, 0x22]), "add word [bx], 0x0022\n");
    // word flag alone: two immediate bytes
    assert_eq!(lines_of(&[0x81, 0x3F, 0x34, 0x12]), "cmp word [bx], 0x1234\n");
    // no word flag: one immediate byte, byte operand
    assert_eq!(lines_of(&[0x80, 0x3F, 0x7F]), "cmp byte [bx], 0x7f\n");
    assert_eq!(lines_of(&[0x80, 0x0E, 0x12, 0x34, 0x01]), "or byte [13330], 0x01\n");
}

#[test]
fn arithmetic_immediate_selects_by_the_reg_field() {
    let names = ["add", "or", "adc", "sbb", "and", "sub", "xor", "cmp"];
    for (reg, name) in names.iter().enumerate() {
        let modrm = 0xC0 | ((reg as u8) << 3) | 0x01;
        assert_eq!(
            lines_of(&[0x80, modrm, 0x10]),
            format!("{} cl, 0x10\n", name)
        );
    }
}

#[test]
fn mov_immediate_to_memory() {
    assert_eq!(lines_of(&[0xC6, 0x03, 0x07]), "mov byte [bp+di], 0x07\n");
    assert_eq!(
        lines_of(&[0xC7, 0x85, 0x85, 0x03, 0x5B, 0x01]),
        "mov word [di+901], 0x015b\n"
    );
}

#[test]
fn single_operand_instructions() {
    assert_eq!(lines_of(&[0xFE, 0xC0]), "inc al\n");
    assert_eq!(lines_of(&[0xFF, 0x06, 0x12, 0x34]), "inc word [13330]\n");
    assert_eq!(lines_of(&[0xFE, 0x0F]), "dec byte [bx]\n");
    assert_eq!(lines_of(&[0xF7, 0xD8]), "neg ax\n");
    assert_eq!(lines_of(&[0xF6, 0x17]), "not byte [bx]\n");
    assert_eq!(lines_of(&[0xF7, 0xE3]), "mul bx\n");
    assert_eq!(lines_of(&[0xF6, 0x2C]), "imul byte [si]\n");
    assert_eq!(lines_of(&[0xF7, 0x35]), "div word [di]\n");
    assert_eq!(lines_of(&[0xF6, 0xF9]), "idiv cl\n");
    assert_eq!(lines_of(&[0x43]), "inc bx\n");
    assert_eq!(lines_of(&[0x4F]), "dec di\n");
}

#[test]
fn test_with_an_immediate() {
    assert_eq!(lines_of(&[0xF6, 0xC3, 0x14]), "test bl, 20\n");
    assert_eq!(lines_of(&[0xF7, 0x07, 0xFF, 0xFF]), "test word [bx], -1\n");
    assert_eq!(lines_of(&[0xF6, 0x06, 0x12, 0x34, 0x80]), "test byte [13330], -128\n");
}

#[test]
fn shifts_and_rotates() {
    assert_eq!(lines_of(&[0xD0, 0xE0]), "sal al, 1\n");
    assert_eq!(lines_of(&[0xD3, 0xE8]), "shr ax, cl\n");
    assert_eq!(lines_of(&[0xD1, 0xF8]), "sar ax, 1\n");
    assert_eq!(lines_of(&[0xD2, 0x07]), "rol byte [bx], cl\n");
    assert_eq!(lines_of(&[0xD1, 0x0F]), "ror word [bx], 1\n");
    assert_eq!(lines_of(&[0xD0, 0xD3]), "rcl bl, 1\n");
    assert_eq!(lines_of(&[0xD3, 0x1E, 0x12, 0x34]), "rcr word [13330], cl\n");
}

#[test]
fn push_and_pop() {
    assert_eq!(lines_of(&[0x50]), "push word ax\n");
    assert_eq!(lines_of(&[0x5F]), "pop word di\n");
    assert_eq!(lines_of(&[0x06]), "push word es\n");
    assert_eq!(lines_of(&[0x1F]), "pop word ds\n");
    assert_eq!(lines_of(&[0xFF, 0x36, 0x12, 0x34]), "push word [13330]\n");
    assert_eq!(lines_of(&[0x8F, 0x07]), "pop word [bx]\n");
}

#[test]
fn in_and_out() {
    assert_eq!(lines_of(&[0xE4, 0xC8]), "in al, 200\n");
    assert_eq!(lines_of(&[0xE5, 0x10]), "in ax, 16\n");
    assert_eq!(lines_of(&[0xE6, 0x2C]), "out 44, al\n");
    assert_eq!(lines_of(&[0xE7, 0x2C]), "out 44, ax\n");
    assert_eq!(lines_of(&[0xEC]), "in al, dx\n");
    assert_eq!(lines_of(&[0xED]), "in ax, dx\n");
    assert_eq!(lines_of(&[0xEE]), "out dx, al\n");
    assert_eq!(lines_of(&[0xEF]), "out dx, ax\n");
}

#[test]
fn other_data_transfers() {
    assert_eq!(lines_of(&[0xD7]), "xlat \n");
    assert_eq!(lines_of(&[0x9F]), "lahf \n");
    assert_eq!(lines_of(&[0x9E]), "sahf \n");
    assert_eq!(lines_of(&[0x9C]), "pushf \n");
    assert_eq!(lines_of(&[0x9D]), "popf \n");
    assert_eq!(lines_of(&[0x8D, 0x81, 0x8C, 0x05]), "lea ax, [bx+di+1420]\n");
    assert_eq!(lines_of(&[0xC5, 0x1F]), "lds bx, [bx]\n");
    assert_eq!(lines_of(&[0xC4, 0x5E, 0xFE]), "les bx, [bp-2]\n");
    assert_eq!(lines_of(&[0x93]), "xchg bx, ax\n");
}

#[test]
fn moves_of_segment_registers() {
    assert_eq!(lines_of(&[0x8E, 0xD8]), "mov ds, ax\n");
    assert_eq!(lines_of(&[0x8C, 0xC3]), "mov bx, es\n");
    assert_eq!(lines_of(&[0x8E, 0x16, 0x12, 0x34]), "mov ss, [13330]\n");
}

#[test]
fn bare_instructions_end_in_a_space() {
    let cases: [(u8, &str); 25] = [
        (0x37, "aaa"), (0x27, "daa"), (0x3F, "aas"), (0x2F, "das"), (0x98, "cbw"),
        (0x99, "cwd"), (0xF8, "clc"), (0xF5, "cmc"), (0xF9, "stc"), (0xFC, "cld"),
        (0xFD, "std"), (0xFA, "cli"), (0xFB, "sti"), (0xF4, "hlt"), (0x9B, "wait"),
        (0xA4, "movsb"), (0xA5, "movsw"), (0xAA, "stosb"), (0xAB, "stosw"),
        (0xAC, "lodsb"), (0xAD, "lodsw"), (0xAE, "scasb"), (0xAF, "scasw"),
        (0xC3, "ret"), (0xCB, "retf"),
    ];
    for (byte, name) in cases {
        assert_eq!(lines_of(&[byte]), format!("{} \n", name));
    }
}

#[test]
fn ascii_adjust_needs_its_second_byte() {
    assert_eq!(lines_of(&[0xD4, 0x0A]), "aam \n");
    assert_eq!(lines_of(&[0xD5, 0x0A]), "aad \n");
    assert_eq!(lines_of(&[0xD4, 0x0B]), "");
    assert_eq!(lines_of(&[0xD5]), "");
}

#[test]
fn returns_and_interrupts() {
    assert_eq!(lines_of(&[0xC2, 0xF9, 0xFF]), "ret 65529\n");
    assert_eq!(lines_of(&[0xCA, 0x94, 0x11]), "retf 4500\n");
    assert_eq!(lines_of(&[0xCD, 0x0D]), "int 13\n");
    assert_eq!(lines_of(&[0xCC]), "int3 \n");
    assert_eq!(lines_of(&[0xCE]), "into \n");
    assert_eq!(lines_of(&[0xCF]), "iret \n");
}

#[test]
fn calls_and_jumps_through_operands_and_to_far_targets() {
    assert_eq!(lines_of(&[0xFF, 0x16, 0x21, 0x99]), "call [-26335]\n");
    assert_eq!(lines_of(&[0xFF, 0x52, 0xC6]), "call [bp+si-58]\n");
    assert_eq!(lines_of(&[0xFF, 0xE0]), "jmp ax\n");
    assert_eq!(lines_of(&[0xFF, 0x5A, 0xC6]), "call far [bp+si-58]\n");
    assert_eq!(lines_of(&[0xFF, 0x2D]), "jmp far [di]\n");
    assert_eq!(lines_of(&[0x9A, 0xC8, 0x01, 0x7B, 0x00]), "call 123:456\n");
    assert_eq!(lines_of(&[0xEA, 0x22, 0x00, 0x15, 0x03]), "jmp 789:34\n");
}

#[test]
fn conditional_jumps_and_loops_have_their_mnemonics() {
    let cases: [(u8, &str); 20] = [
        (0x70, "jo"), (0x71, "jno"), (0x72, "jb"), (0x73, "jae"), (0x74, "je"),
        (0x75, "jne"), (0x76, "jbe"), (0x77, "ja"), (0x78, "js"), (0x79, "jns"),
        (0x7A, "jp"), (0x7B, "jnp"), (0x7C, "jl"), (0x7D, "jge"), (0x7E, "jle"),
        (0x7F, "jg"), (0xE0, "loopnz"), (0xE1, "loopz"), (0xE2, "loop"), (0xE3, "jcxz"),
    ];
    for (byte, name) in cases {
        assert_eq!(lines_of(&[byte, 0xFE]), format!("loc_0:\n{} loc_0\n", name));
    }
}

#[test]
fn unknown_byte_ends_the_listing() {
    let listing = run("image", &[0x89, 0xDC, 0x60, 0x89, 0xDC], WriterOptions { verbose: false })
        .unwrap();
    assert_eq!(listing.parsed, 2);
    assert_eq!(
        String::from_utf8(listing.text).unwrap(),
        "; image\n\nbits 16\n\nmov sp, bx\n"
    );
}

#[test]
fn truncated_instruction_ends_the_listing() {
    let listing = run("image", &[0x89, 0xDC, 0x8B, 0x1E, 0x12], WriterOptions { verbose: false })
        .unwrap();
    assert_eq!(listing.parsed, 2);
    assert_eq!(
        String::from_utf8(listing.text).unwrap(),
        "; image\n\nbits 16\n\nmov sp, bx\n"
    );
}

#[test]
fn empty_input_is_an_error() {
    let outcome = run("image", &[], WriterOptions { verbose: false });
    assert!(matches!(outcome, Err(RunError::EmptyInput)));
}

#[test]
fn jump_before_the_start_is_an_error() {
    // je -5 from the end of the jump at offset 2 leads to offset -1
    let outcome = run("image", &[0x89, 0xDC, 0x74, 0xFB], WriterOptions { verbose: false });
    assert!(matches!(outcome, Err(RunError::JumpOutOfRange { offset: 2 })));
    let outcome = run("image", &[0x74, 0x80], WriterOptions { verbose: false });
    assert!(matches!(outcome, Err(RunError::JumpOutOfRange { offset: 0 })));
}

#[test]
fn all_bytes_parsed_are_counted() {
    let bytes = [0x01, 0xD8, 0xF3, 0xA6, 0x26, 0x8B, 0x1E, 0x12, 0x34, 0x74, 0xF5];
    let listing = run("image", &bytes, WriterOptions { verbose: false }).unwrap();
    assert_eq!(listing.parsed, bytes.len());
    assert_eq!(
        String::from_utf8(listing.text).unwrap(),
        "; image\n\nbits 16\n\nloc_0:\nadd ax, bx\nrep cmpsb \nmov bx, es:[13330]\nje loc_0\n"
    );
}

#[test]
fn verbose_listing_shows_the_bytes_of_each_instruction() {
    let listing = run("image", &[0x89, 0xDC, 0xF3, 0xA6], WriterOptions { verbose: true }).unwrap();
    assert_eq!(
        String::from_utf8(listing.text).unwrap(),
        "; image\n\nbits 16\n\n; 10001001 11011100 \nmov sp, bx\n; 11110011 10100110 \nrep cmpsb \n"
    );
}

#[test]
fn verbose_listing_shows_pending_prefixes_before_the_bytes() {
    let listing = run(
        "image",
        &[0xF0, 0x2E, 0x86, 0x07],
        WriterOptions { verbose: true },
    )
    .unwrap();
    assert_eq!(
        String::from_utf8(listing.text).unwrap(),
        "; image\n\nbits 16\n\n; 00101110 11110000 10000110 00000111 \nlock xchg al, cs:[bx]\n"
    );
}

#[test]
fn verbose_listing_warns_of_bytes_not_parsed() {
    let listing = run("image", &[0x89, 0xDC, 0x60, 0x01], WriterOptions { verbose: true }).unwrap();
    assert_eq!(listing.parsed, 2);
    assert_eq!(
        String::from_utf8(listing.text).unwrap(),
        "; image\n\nbits 16\n\n; 10001001 11011100 \nmov sp, bx\n; Warning: 2 bytes were not parsed. Bytes: 01100000 00000001\n"
    );
}

#[test]
fn label_is_placed_before_the_comment_in_a_verbose_listing() {
    let listing = run("image", &[0xEB, 0x00, 0x90], WriterOptions { verbose: true }).unwrap();
    assert_eq!(
        String::from_utf8(listing.text).unwrap(),
        "; image\n\nbits 16\n\n; 11101011 00000000 \njmp loc_0\nloc_0:\n; 10010000 \nxchg ax, ax\n"
    );
}

#[test]
fn every_label_referred_to_has_exactly_one_header() {
    // forward and backward jumps, shared targets, a prefixed instruction and
    // a jump to itself
    let bytes = [
        0xEB, 0x06, // 0: jmp 8
        0x01, 0xD8, // 2: add ax, bx
        0x74, 0xFC, // 4: je 2
        0x75, 0x04, // 6: jne 12
        0xF3, 0xA4, // 8: rep movsb
        0xE2, 0xFC, // 10: loop 8
        0x29, 0xD8, // 12: sub ax, bx
        0x74, 0xFE, // 14: je 14
        0xE9, 0xED, 0xFF, // 16: jmp 0
        0xE8, 0xF2, 0xFF, // 19: call 8
    ];
    let text = lines_of(&bytes);
    assert_eq!(
        text,
        "loc_4:\njmp loc_0\nloc_1:\nadd ax, bx\nje loc_1\njne loc_2\nloc_0:\nrep movsb \n\
         loop loc_0\nloc_2:\nsub ax, bx\nloc_3:\nje loc_3\njmp loc_4\ncall loc_0\n"
    );
    let mut referred = Vec::new();
    for line in text.lines() {
        if let Some(at) = line.find(" loc_") {
            let number: usize = line[at + 5..].parse().unwrap();
            if !referred.contains(&number) {
                referred.push(number);
            }
        }
    }
    assert_eq!(referred, vec![0, 1, 2, 3, 4]);
    for number in referred {
        let header = format!("loc_{}:\n", number);
        assert_eq!(text.matches(&header).count(), 1);
    }
}

#[test]
fn label_of_a_target_behind_the_end_has_no_header() {
    assert_eq!(lines_of(&[0xEB, 0x10, 0x90]), "jmp loc_0\nxchg ax, ax\n");
}
