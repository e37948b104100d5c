use erika::spirv::shader_words;

#[test]
fn shader_words_read_either_byte_order() {
    let little = [0x03, 0x02, 0x23, 0x07, 0x00, 0x00, 0x01, 0x00];
    let big = [0x07, 0x23, 0x02, 0x03, 0x00, 0x01, 0x00, 0x00];
    let expected = vec![0x0723_0203u32, 0x0001_0000];
    assert_eq!(shader_words(&little, "vertex"), Ok(expected.clone()));
    assert_eq!(shader_words(&big, "vertex"), Ok(expected));
}

#[test]
fn shader_words_need_whole_words() {
    assert_eq!(
        shader_words(&[0x03, 0x02, 0x23, 0x07, 0x00], "create_ahb_vertex_shader"),
        Err(String::from(
            "stage=create_ahb_vertex_shader reason=invalid_spirv message=input length not divisible by 4"
        ))
    );
}

#[test]
fn shader_words_need_the_magic_word() {
    let missing = Err(String::from(
        "stage=fragment reason=invalid_spirv message=input missing SPIR-V magic number",
    ));
    assert_eq!(shader_words(&[], "fragment"), missing);
    assert_eq!(shader_words(&[0, 0, 0, 0], "fragment"), missing);
    assert_eq!(shader_words(&[0x02, 0x03, 0x07, 0x23], "fragment"), missing);
}
