use framework::spirv::{decode_spirv, ShaderError, SPIRV_MAGIC};

fn le_bytes(words: &[u32]) -> Vec<u8> {
    words.iter().flat_map(|w| w.to_le_bytes()).collect()
}

fn be_bytes(words: &[u32]) -> Vec<u8> {
    words.iter().flat_map(|w| w.to_be_bytes()).collect()
}

#[test]
fn decodes_little_endian_module() {
    let words = [SPIRV_MAGIC, 0x0001_0600, 0, 42, 0xdead_beef];
    assert_eq!(decode_spirv(&le_bytes(&words)), Ok(words.to_vec()));
    let bytes = [0x03u8, 0x02, 0x23, 0x07, 0x01, 0x00, 0x00, 0x00];
    assert_eq!(decode_spirv(&bytes), Ok(vec![0x0723_0203, 1]));
}

#[test]
fn decodes_big_endian_module() {
    let words = [SPIRV_MAGIC, 0x0001_0600, 7, 0x1234_5678];
    assert_eq!(decode_spirv(&be_bytes(&words)), Ok(words.to_vec()));
    let bytes = [0x07u8, 0x23, 0x02, 0x03, 0x00, 0x00, 0x00, 0x01];
    assert_eq!(decode_spirv(&bytes), Ok(vec![0x0723_0203, 1]));
}

#[test]
fn magic_number_alone() {
    assert_eq!(decode_spirv(&le_bytes(&[SPIRV_MAGIC])), Ok(vec![SPIRV_MAGIC]));
}

#[test]
fn rejects_length_not_multiple_of_four() {
    let mut bytes = le_bytes(&[SPIRV_MAGIC, 1]);
    bytes.push(0);
    assert_eq!(decode_spirv(&bytes), Err(ShaderError::InvalidSpirv));
    assert_eq!(decode_spirv(&[0x03, 0x02, 0x23]), Err(ShaderError::InvalidSpirv));
}

#[test]
fn rejects_empty_input() {
    assert_eq!(decode_spirv(&[]), Err(ShaderError::InvalidSpirv));
}

#[test]
fn rejects_missing_magic_number() {
    assert_eq!(decode_spirv(&le_bytes(&[1, SPIRV_MAGIC])), Err(ShaderError::InvalidSpirv));
    assert_eq!(decode_spirv(&[0u8; 16]), Err(ShaderError::InvalidSpirv));
}
