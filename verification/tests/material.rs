use io_unity::error::ReadError;
use io_unity::material::{Material, UnityPropertySheet};

fn aligned(out: &mut Vec<u8>, text: &str) {
    out.extend_from_slice(&(text.len() as i32).to_le_bytes());
    out.extend_from_slice(text.as_bytes());
    while out.len() % 4 != 0 {
        out.push(0);
    }
}

fn sample_material() -> Vec<u8> {
    let mut m = Vec::new();
    aligned(&mut m, "Skin");
    m.extend_from_slice(&0i32.to_le_bytes()); // shader file id
    m.extend_from_slice(&77i32.to_le_bytes()); // shader path id
    aligned(&mut m, "_NORMALMAP");
    m.extend_from_slice(&4u32.to_le_bytes()); // lightmap flags
    m.push(1); // instancing
    while m.len() % 4 != 0 {
        m.push(0);
    }
    m.extend_from_slice(&2000i32.to_le_bytes()); // render queue
    m.extend_from_slice(&1i32.to_le_bytes()); // one tag
    aligned(&mut m, "RenderType");
    aligned(&mut m, "Opaque");
    m.extend_from_slice(&1i32.to_le_bytes()); // one disabled pass
    aligned(&mut m, "SHADOWCASTER");
    m.extend_from_slice(&1i32.to_le_bytes()); // one texture
    aligned(&mut m, "_MainTex");
    m.extend_from_slice(&0i32.to_le_bytes());
    m.extend_from_slice(&5i32.to_le_bytes());
    for v in [1.0f32, 1.0, 0.0, 0.5] {
        m.extend_from_slice(&v.to_bits().to_le_bytes());
    }
    m.extend_from_slice(&1i32.to_le_bytes()); // one float
    aligned(&mut m, "_Glossiness");
    m.extend_from_slice(&0.25f32.to_bits().to_le_bytes());
    m.extend_from_slice(&1i32.to_le_bytes()); // one color
    aligned(&mut m, "_Color");
    for v in [1.0f32, 0.5, 0.25, 1.0] {
        m.extend_from_slice(&v.to_bits().to_le_bytes());
    }
    m
}

#[test]
fn material_reads_all_parts() {
    let bytes = sample_material();
    let (m, end) = Material::read(&bytes, 0, false).unwrap();
    assert_eq!(end, bytes.len());
    assert_eq!(m.name.to_string(), "Skin");
    assert_eq!(m.shader.get_path_id(), 77);
    assert_eq!(m.shader_keywords.to_string(), "_NORMALMAP");
    assert_eq!(m.lightmap_flags, 4);
    assert!(m.enable_instancing_variants.get());
    assert_eq!(m.custom_render_queue, 2000);
    assert_eq!(m.string_tag_map.len(), 1);
    assert_eq!(m.string_tag_map[0].first.to_string(), "RenderType");
    assert_eq!(m.string_tag_map[0].second.to_string(), "Opaque");
    assert_eq!(m.disabled_shader_passes[0].to_string(), "SHADOWCASTER");
    let sheet: &UnityPropertySheet = &m.saved_properties;
    assert_eq!(sheet.tex_envs[0].first.to_string(), "_MainTex");
    assert_eq!(sheet.tex_envs[0].second.texture.get_path_id(), 5);
    assert_eq!(f32::from_bits(sheet.tex_envs[0].second.offset_y), 0.5);
    assert_eq!(f32::from_bits(sheet.floats[0].second), 0.25);
    assert_eq!(sheet.colors[0].first.to_string(), "_Color");
    assert_eq!(f32::from_bits(sheet.colors[0].b), 0.25);
}

#[test]
fn material_refusals() {
    let bytes = sample_material();
    for cut in [3usize, 20, 40, bytes.len() - 1] {
        assert_eq!(Material::read(&bytes[..cut], 0, false).err(), Some(ReadError::UnexpectedEof));
    }
    // a negative count of tags
    let mut bad = sample_material();
    let tags_at = 8 + 8 + 16 + 8 + 4;
    bad[tags_at..tags_at + 4].copy_from_slice(&(-1i32).to_le_bytes());
    assert_eq!(Material::read(&bad, 0, false).err(), Some(ReadError::InvalidValue));
}
