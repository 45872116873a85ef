use screen_guardian_core::export_lookup::{module_name_is, ExportAction, ExportLookup, ExportRead};

const BASE: usize = 0x10000;

fn put_u32(img: &mut [u8], at: usize, v: u32) {
    img[at..at + 4].copy_from_slice(&v.to_le_bytes());
}

fn put_u16(img: &mut [u8], at: usize, v: u16) {
    img[at..at + 2].copy_from_slice(&v.to_le_bytes());
}

/// A module image with the given exported names; function `i` sits at
/// offset 0x5000 + 0x10 * i. `magic` is 0x10B (PE32) or 0x20B (PE32+).
fn image(names: &[&str], magic: u16, with_exports: bool) -> Vec<u8> {
    let mut img = vec![0u8; 0x6000];
    let pe = 0x80;
    put_u32(&mut img, 0x3C, pe as u32);
    let opt = pe + 0x18;
    put_u16(&mut img, opt, magic);
    let dir = opt + if magic == 0x10B { 0x60 } else { 0x70 };
    let export_dir = 0x1000;
    put_u32(&mut img, dir, if with_exports { export_dir as u32 } else { 0 });
    let (names_arr, ords_arr, funcs_arr, strings) = (0x2000, 0x2800, 0x3000, 0x4000);
    put_u32(&mut img, export_dir + 0x18, names.len() as u32);
    put_u32(&mut img, export_dir + 0x1C, funcs_arr as u32);
    put_u32(&mut img, export_dir + 0x20, names_arr as u32);
    put_u32(&mut img, export_dir + 0x24, ords_arr as u32);
    let mut at = strings;
    for (i, n) in names.iter().enumerate() {
        put_u32(&mut img, names_arr + 4 * i, at as u32);
        img[at..at + n.len()].copy_from_slice(n.as_bytes());
        at += n.len() + 1;
        // ordinals point to the functions in reverse order
        let ord = names.len() - 1 - i;
        put_u16(&mut img, ords_arr + 2 * i, ord as u16);
        put_u32(&mut img, funcs_arr + 4 * ord, (0x5000 + 0x10 * i) as u32);
    }
    img
}

fn lookup(img: &[u8], name: &str) -> (ExportAction, usize) {
    let (mut state, mut action) = ExportLookup::start(BASE);
    let mut reads = 0;
    loop {
        let read = match action {
            ExportAction::ReadDword(addr) => {
                let at = addr - BASE;
                ExportRead::Dword(u32::from_le_bytes(img[at..at + 4].try_into().unwrap()))
            }
            ExportAction::ReadBytes(addr, len) => {
                let at = addr - BASE;
                ExportRead::Bytes(img[at..at + len].to_vec())
            }
            done => return (done, reads),
        };
        reads += 1;
        assert_eq!(state.wants_bytes(), matches!(read, ExportRead::Bytes(_)));
        let (next, next_action) = state.step(name, &read);
        state = next;
        action = next_action;
    }
}

#[test]
fn export_found_in_pe32_plus() {
    let img = image(&["GetDC", "SetWindowDisplayAffinity", "ShowWindow"], 0x20B, true);
    assert_eq!(lookup(&img, "SetWindowDisplayAffinity").0, ExportAction::Found(BASE + 0x5010));
    assert_eq!(lookup(&img, "GetDC").0, ExportAction::Found(BASE + 0x5000));
    assert_eq!(lookup(&img, "ShowWindow").0, ExportAction::Found(BASE + 0x5020));
}

#[test]
fn export_found_in_pe32() {
    let img = image(&["A", "SetWindowDisplayAffinity"], 0x10B, true);
    assert_eq!(lookup(&img, "SetWindowDisplayAffinity").0, ExportAction::Found(BASE + 0x5010));
}

#[test]
fn export_missing_name_is_not_found() {
    let img = image(&["GetDC", "ShowWindow"], 0x20B, true);
    let (action, reads) = lookup(&img, "SetWindowDisplayAffinity");
    assert_eq!(action, ExportAction::NotFound);
    // header (3), directory (4), then an offset and a name for each of the two names
    assert_eq!(reads, 3 + 4 + 4);
}

#[test]
fn export_prefix_is_no_match() {
    let img = image(&["SetWindowDisplayAffinityEx"], 0x20B, true);
    assert_eq!(lookup(&img, "SetWindowDisplayAffinity").0, ExportAction::NotFound);
}

#[test]
fn export_directory_absent() {
    let img = image(&["GetDC"], 0x20B, false);
    assert_eq!(lookup(&img, "GetDC"), (ExportAction::NoExportDirectory, 3));
}

#[test]
fn export_table_without_names() {
    let img = image(&[], 0x20B, true);
    assert_eq!(lookup(&img, "GetDC").0, ExportAction::NotFound);
}

#[test]
fn export_name_is_decoded_lossily() {
    let mut img = image(&["AB", "Next"], 0x20B, true);
    // the first name's second byte is not valid UTF-8
    img[0x4001] = 0xFF;
    assert_eq!(lookup(&img, "A\u{FFFD}").0, ExportAction::Found(BASE + 0x5000));
    assert_eq!(lookup(&img, "AB").0, ExportAction::NotFound);
}

#[test]
fn export_name_without_terminator_reads_as_empty() {
    let mut img = image(&["Name"], 0x20B, true);
    for b in &mut img[0x4000..0x4020] {
        *b = b'x';
    }
    assert_eq!(lookup(&img, "").0, ExportAction::Found(BASE + 0x5000));
    assert_eq!(lookup(&img, "xxxx").0, ExportAction::NotFound);
}

#[test]
fn module_name_compared_exactly() {
    let wanted: Vec<u16> = "user32.dll".encode_utf16().collect();
    let mut buf = [0u16; 16];
    for (i, u) in "user32.dll".encode_utf16().enumerate() {
        buf[i] = u;
    }
    assert!(module_name_is(&buf, &wanted));
    let mut upper = [0u16; 16];
    for (i, u) in "USER32.DLL".encode_utf16().enumerate() {
        upper[i] = u;
    }
    assert!(!module_name_is(&upper, &wanted));
    let full: Vec<u16> = "user32.dll".encode_utf16().collect();
    assert!(module_name_is(&full, &wanted));
    assert!(!module_name_is(&buf[..5], &wanted));
}
