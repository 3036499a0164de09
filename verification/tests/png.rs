use pngme::chunk::Chunk;
use pngme::chunk_type::ChunkType;
use pngme::error::PngError;
use pngme::png::Png;

const SIGNATURE: [u8; 8] = [137, 80, 78, 71, 13, 10, 26, 10];

fn chunk_from_strings(chunk_type: &str, data: &str) -> Chunk {
    let chunk_type = ChunkType::from_text(chunk_type).unwrap();
    Chunk::new(chunk_type, data.as_bytes().to_vec())
}

fn testing_png_bytes() -> Vec<u8> {
    let mut bytes = SIGNATURE.to_vec();
    bytes.extend_from_slice(&chunk_from_strings("FrSt", "I am the first chunk").as_bytes());
    bytes.extend_from_slice(&chunk_from_strings("miDl", "I am another chunk").as_bytes());
    bytes.extend_from_slice(&chunk_from_strings("LASt", "I am the last chunk").as_bytes());
    bytes
}

#[test]
fn test_parse_valid_container() {
    let bytes = testing_png_bytes();
    let png = Png::parse(bytes.as_ref()).unwrap();
    assert_eq!(png.chunks().len(), 3);
    assert_eq!(png.chunks()[0].chunk_type().to_text(), "FrSt");
    assert_eq!(png.chunks()[2].chunk_type().to_text(), "LASt");
}

#[test]
fn test_parse_signature_gate() {
    // Changing any one signature byte must fail the parse, whatever follows.
    let reference = testing_png_bytes();
    for i in 0..8 {
        let mut corrupted = reference.clone();
        corrupted[i] ^= 0x01;
        assert_eq!(
            Png::parse(corrupted.as_ref()).unwrap_err(),
            PngError::BadSignature
        );
    }
    // Too short to even hold the signature.
    assert_eq!(Png::parse(&[137, 80]).unwrap_err(), PngError::BadSignature);
    assert_eq!(Png::parse(&[]).unwrap_err(), PngError::BadSignature);
}

#[test]
fn test_parse_propagates_chunk_error() {
    let mut bytes = SIGNATURE.to_vec();
    bytes.extend_from_slice(&chunk_from_strings("FrSt", "I am the first chunk").as_bytes());
    // A trailing record whose header is cut off.
    bytes.extend_from_slice(&[0, 0, 0, 1]);
    assert_eq!(
        Png::parse(bytes.as_ref()).unwrap_err(),
        PngError::TruncatedHeader
    );
}

#[test]
fn test_serialize_round_trip() {
    let bytes = testing_png_bytes();
    let png = Png::parse(bytes.as_ref()).unwrap();
    assert_eq!(png.as_bytes(), bytes);
}

#[test]
fn test_append_then_reparse_finds_secret() {
    // Start from a minimal container: the signature and no chunks.
    let mut png = Png::parse(&SIGNATURE).unwrap();
    assert_eq!(png.chunks().len(), 0);

    png.append_chunk(chunk_from_strings(
        "ruSt",
        "This is where your secret message will be!",
    ));
    let serialized = png.as_bytes();

    let reparsed = Png::parse(serialized.as_ref()).unwrap();
    let secret = reparsed.chunk_by_type("ruSt").unwrap();
    assert_eq!(
        secret.data_as_string().unwrap(),
        "This is where your secret message will be!"
    );
    assert_eq!(secret.crc(), 1377541735);
}

#[test]
fn test_minimal_round_trip() {
    let mut png = Png::new();
    png.append_chunk(chunk_from_strings("RuSt", "hello"));
    let serialized = png.as_bytes();

    let reparsed = Png::parse(serialized.as_ref()).unwrap();
    assert_eq!(reparsed.chunks().len(), 1);
    let chunk = &reparsed.chunks()[0];
    assert_eq!(chunk.chunk_type().bytes(), [82, 117, 83, 116]);
    assert_eq!(chunk.data(), "hello".as_bytes());
}

#[test]
fn test_remove_present_chunk() {
    let png_bytes = testing_png_bytes();
    let mut png = Png::parse(png_bytes.as_ref()).unwrap();
    let removed = png.remove_chunk("miDl").unwrap();
    assert_eq!(removed.chunk_type().to_text(), "miDl");
    assert_eq!(removed.data_as_string().unwrap(), "I am another chunk");
    assert_eq!(png.chunks().len(), 2);
    assert!(png.chunk_by_type("miDl").is_none());
}

#[test]
fn test_remove_absent_chunk() {
    let png_bytes = testing_png_bytes();
    let mut png = Png::parse(png_bytes.as_ref()).unwrap();
    assert_eq!(png.remove_chunk("NoNe").unwrap_err(), PngError::ChunkNotFound);
    assert_eq!(png.chunks().len(), 3);
    assert_eq!(png.as_bytes(), png_bytes);
}

#[test]
fn test_remove_first_of_duplicates() {
    let mut png = Png::new();
    png.append_chunk(chunk_from_strings("FrSt", "before"));
    png.append_chunk(chunk_from_strings("duPl", "first copy"));
    png.append_chunk(chunk_from_strings("duPl", "second copy"));
    png.append_chunk(chunk_from_strings("LASt", "after"));

    let removed = png.remove_chunk("duPl").unwrap();
    assert_eq!(removed.data_as_string().unwrap(), "first copy");

    // Only the first duplicate left; order of the rest is preserved.
    assert_eq!(png.chunks().len(), 3);
    assert_eq!(png.chunks()[0].chunk_type().to_text(), "FrSt");
    assert_eq!(png.chunks()[1].chunk_type().to_text(), "duPl");
    assert_eq!(
        png.chunks()[1].data_as_string().unwrap(),
        "second copy"
    );
    assert_eq!(png.chunks()[2].chunk_type().to_text(), "LASt");
}

#[test]
fn test_chunk_by_type_finds_first_match() {
    let mut png = Png::new();
    png.append_chunk(chunk_from_strings("duPl", "first copy"));
    png.append_chunk(chunk_from_strings("duPl", "second copy"));
    let found = png.chunk_by_type("duPl").unwrap();
    assert_eq!(found.data_as_string().unwrap(), "first copy");
    assert!(png.chunk_by_type("NoNe").is_none());
}
