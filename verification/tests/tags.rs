use opus_decode::read_meta_data;
use opus_decode::split_field;
use opus_decode::FieldData;
use opus_decode::MetaDataError;

fn le(n: u32) -> Vec<u8> {
    vec![n as u8, (n >> 8) as u8, (n >> 16) as u8, (n >> 24) as u8]
}

fn header(vendor: &[u8], declared: u32, comments: &[&[u8]]) -> Vec<u8> {
    let mut bytes = b"OpusTags".to_vec();
    bytes.extend(le(vendor.len() as u32));
    bytes.extend_from_slice(vendor);
    bytes.extend(le(declared));
    for comment in comments {
        bytes.extend(le(comment.len() as u32));
        bytes.extend_from_slice(comment);
    }
    bytes
}

fn pairs(fields: &[FieldData]) -> Vec<(Vec<u8>, Vec<u8>)> {
    fields.iter().map(|field| (field.name.clone(), field.info.clone())).collect()
}

fn pair(name: &[u8], info: &[u8]) -> (Vec<u8>, Vec<u8>) {
    (name.to_vec(), info.to_vec())
}

#[test]
fn field_is_divided_at_the_first_separator() {
    let field = split_field(b"TITLE=a=b").unwrap();
    assert_eq!(field.name, b"TITLE".to_vec());
    assert_eq!(field.info, b"a=b".to_vec());
}

#[test]
fn field_with_empty_name_or_value() {
    let field = split_field(b"=x").unwrap();
    assert_eq!((field.name, field.info), pair(b"", b"x"));
    let field = split_field(b"x=").unwrap();
    assert_eq!((field.name, field.info), pair(b"x", b""));
    let field = split_field(b"=").unwrap();
    assert_eq!((field.name, field.info), pair(b"", b""));
}

#[test]
fn field_without_separator() {
    assert!(split_field(b"TITLE").is_none());
    assert!(split_field(b"").is_none());
}

#[test]
fn header_with_vendor_and_comments() {
    let bytes = header(b"libopus 1.3", 2, &[b"ARTIST=Someone", b"TITLE=Some=thing"]);
    let fields = read_meta_data(&bytes).unwrap();
    assert_eq!(
        pairs(&fields),
        vec![
            pair(b"", b"libopus 1.3"),
            pair(b"ARTIST", b"Someone"),
            pair(b"TITLE", b"Some=thing"),
        ]
    );
}

#[test]
fn header_without_comments() {
    let fields = read_meta_data(&header(b"v", 0, &[])).unwrap();
    assert_eq!(pairs(&fields), vec![pair(b"", b"v")]);
    let fields = read_meta_data(&header(b"", 0, &[])).unwrap();
    assert_eq!(pairs(&fields), vec![pair(b"", b"")]);
}

#[test]
fn header_lengths_are_little_endian() {
    // a vendor string of 0x0105 bytes: the length is written 05 01 00 00
    let vendor: Vec<u8> = std::iter::repeat(b'v').take(0x0105).collect();
    let mut comment = b"K=".to_vec();
    comment.extend(std::iter::repeat(b'c').take(0x0203));
    let bytes = header(&vendor, 1, &[&comment]);
    assert_eq!(&bytes[8..12], &[0x05u8, 0x01, 0x00, 0x00][..]);
    let fields = read_meta_data(&bytes).unwrap();
    assert_eq!(fields.len(), 2);
    assert_eq!(fields[0].info, vendor);
    assert_eq!(fields[1].name, b"K".to_vec());
    assert_eq!(fields[1].info.len(), 0x0203);
}

#[test]
fn header_ignores_what_the_magic_says() {
    let mut bytes = header(b"v", 1, &[b"A=b"]);
    bytes[..8].copy_from_slice(b"whatever");
    let fields = read_meta_data(&bytes).unwrap();
    assert_eq!(pairs(&fields), vec![pair(b"", b"v"), pair(b"A", b"b")]);
}

#[test]
fn header_stops_at_an_empty_comment() {
    let bytes = header(b"v", 3, &[b"A=b", b"", b"C=d"]);
    let fields = read_meta_data(&bytes).unwrap();
    assert_eq!(pairs(&fields), vec![pair(b"", b"v"), pair(b"A", b"b")]);
}

#[test]
fn header_reads_no_more_comments_than_declared() {
    let bytes = header(b"v", 1, &[b"A=b", b"C=d"]);
    let fields = read_meta_data(&bytes).unwrap();
    assert_eq!(pairs(&fields), vec![pair(b"", b"v"), pair(b"A", b"b")]);
}

#[test]
fn header_truncated() {
    let whole = header(b"vendor", 2, &[b"A=b", b"C=d"]);
    assert!(read_meta_data(&whole).is_ok());
    // every proper prefix ends inside a length or inside a string
    for cut in 0..whole.len() {
        assert_eq!(read_meta_data(&whole[..cut]).err(), Some(MetaDataError::Truncated));
    }
    // more comments declared than there are
    let bytes = header(b"v", 2, &[b"A=b"]);
    assert_eq!(read_meta_data(&bytes).err(), Some(MetaDataError::Truncated));
    // a length that reaches far behind the end
    let mut bytes = b"OpusTags".to_vec();
    bytes.extend([0xffu8, 0xff, 0xff, 0xff]);
    assert_eq!(read_meta_data(&bytes).err(), Some(MetaDataError::Truncated));
}

#[test]
fn header_comment_without_separator() {
    let bytes = header(b"v", 2, &[b"A=b", b"nothing"]);
    assert_eq!(read_meta_data(&bytes).err(), Some(MetaDataError::MissingSeparator));
}
