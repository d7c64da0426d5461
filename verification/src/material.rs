//! Materials as their objects store them (Unity 5.6 on): name, shader, keywords,
//! flags, tags, disabled passes and the property sheet of textures, floats and
//! colors. Floats are kept as their bit patterns.
use vstd::prelude::*;

use crate::binary::{align_up, align_up_exec, fits, has_bytes, opt_i32, opt_u32, read_i32, read_u32};
use crate::classes::{ObjectPointer, StringMapUnityTexEnv, UnityTexEnv};
use crate::error::ReadError;
use crate::serialized_file::{read_count, spec_count, spec_list};
use crate::until::binary_records::{AlignedString, U8Bool};

verus! {

/// Reads a count, then that many records with `item` after it.
pub open spec fn spec_counted<T>(
    buf: Seq<u8>,
    pos: int,
    big: bool,
    item: spec_fn(int) -> Result<(T, int), ReadError>,
) -> Result<(Seq<T>, int), ReadError> {
    match spec_count(buf, pos, big) {
        Err(e) => Err(e),
        Ok(n) => spec_list(pos + 4, n, item, seq![]),
    }
}

/// The text of an aligned string at `pos`.
pub open spec fn spec_text(buf: Seq<u8>, pos: int, big: bool) -> Result<(Seq<u8>, int), ReadError> {
    match AlignedString::spec_read(buf, pos, big) {
        Err(e) => Err(e),
        Ok(((_, s), p)) => Ok((s, p)),
    }
}

/// A tag: two aligned strings.
pub open spec fn spec_tag(buf: Seq<u8>, pos: int, big: bool) -> Result<((Seq<u8>, Seq<u8>), int), ReadError> {
    match spec_text(buf, pos, big) {
        Err(e) => Err(e),
        Ok((a, p)) => match spec_text(buf, p, big) {
            Err(e) => Err(e),
            Ok((b, q)) => Ok(((a, b), q)),
        },
    }
}

/// A named float: an aligned string and four bytes.
pub open spec fn spec_named_float(buf: Seq<u8>, pos: int, big: bool) -> Result<((Seq<u8>, u32), int), ReadError> {
    match spec_text(buf, pos, big) {
        Err(e) => Err(e),
        Ok((a, p)) => match opt_u32(buf, p, big) {
            None => Err(ReadError::UnexpectedEof),
            Some(v) => Ok(((a, v), p + 4)),
        },
    }
}

/// A named color: an aligned string and four floats (red, green, blue, alpha).
pub open spec fn spec_named_color(buf: Seq<u8>, pos: int, big: bool) -> Result<((Seq<u8>, Seq<u32>), int), ReadError> {
    match spec_text(buf, pos, big) {
        Err(e) => Err(e),
        Ok((a, p)) => if !fits(buf, p, 16) {
            Err(ReadError::UnexpectedEof)
        } else {
            match (opt_u32(buf, p, big), opt_u32(buf, p + 4, big), opt_u32(buf, p + 8, big), opt_u32(buf, p + 12, big)) {
                (Some(r), Some(g), Some(b), Some(w)) => Ok(((a, seq![r, g, b, w]), p + 16)),
                _ => Err(ReadError::UnexpectedEof),
            }
        },
    }
}

/// A named texture slot.
pub open spec fn spec_tex_env(buf: Seq<u8>, pos: int, big: bool) -> Result<((Seq<u8>, UnityTexEnv), int), ReadError> {
    StringMapUnityTexEnv::spec_read(buf, pos, big)
}

/// A tag of a material.
#[derive(Debug, Clone, PartialEq, Eq)]
pub struct StringMap {
    pub first: AlignedString,
    pub second: AlignedString,
}

/// A named float property, as the float's bit pattern.
#[derive(Debug, Clone, PartialEq, Eq)]
pub struct NamedFloat {
    pub first: AlignedString,
    pub second: u32,
}

/// A named color property, as the bit patterns of its four floats.
#[derive(Debug, Clone, PartialEq, Eq)]
pub struct NamedColor {
    pub first: AlignedString,
    pub r: u32,
    pub g: u32,
    pub b: u32,
    pub a: u32,
}

/// The properties of a material: its textures, floats and colors.
#[derive(Debug, Clone, PartialEq, Eq)]
pub struct UnityPropertySheet {
    pub tex_envs: Vec<StringMapUnityTexEnv>,
    pub floats: Vec<NamedFloat>,
    pub colors: Vec<NamedColor>,
}

pub struct UnityPropertySheetView {
    pub tex_envs: Seq<(Seq<u8>, UnityTexEnv)>,
    pub floats: Seq<(Seq<u8>, u32)>,
    pub colors: Seq<(Seq<u8>, Seq<u32>)>,
}

pub open spec fn tex_envs_view(v: Seq<StringMapUnityTexEnv>) -> Seq<(Seq<u8>, UnityTexEnv)> {
    v.map_values(|e: StringMapUnityTexEnv| (e.first.string@, e.second))
}

pub open spec fn floats_view(v: Seq<NamedFloat>) -> Seq<(Seq<u8>, u32)> {
    v.map_values(|e: NamedFloat| (e.first.string@, e.second))
}

pub open spec fn colors_view(v: Seq<NamedColor>) -> Seq<(Seq<u8>, Seq<u32>)> {
    v.map_values(|e: NamedColor| (e.first.string@, seq![e.r, e.g, e.b, e.a]))
}

pub open spec fn tags_view(v: Seq<StringMap>) -> Seq<(Seq<u8>, Seq<u8>)> {
    v.map_values(|e: StringMap| (e.first.string@, e.second.string@))
}

pub open spec fn texts_view(v: Seq<AlignedString>) -> Seq<Seq<u8>> {
    v.map_values(|e: AlignedString| e.string@)
}

impl View for UnityPropertySheet {
    type V = UnityPropertySheetView;

    open spec fn view(&self) -> UnityPropertySheetView {
        UnityPropertySheetView {
            tex_envs: tex_envs_view(self.tex_envs@),
            floats: floats_view(self.floats@),
            colors: colors_view(self.colors@),
        }
    }
}

/// A property sheet: counted lists of textures, floats and colors.
pub open spec fn spec_property_sheet(buf: Seq<u8>, pos: int, big: bool) -> Result<
    (UnityPropertySheetView, int),
    ReadError,
> {
    match spec_counted(buf, pos, big, |p: int| spec_tex_env(buf, p, big)) {
        Err(e) => Err(e),
        Ok((t, p1)) => match spec_counted(buf, p1, big, |p: int| spec_named_float(buf, p, big)) {
            Err(e) => Err(e),
            Ok((f, p2)) => match spec_counted(buf, p2, big, |p: int| spec_named_color(buf, p, big)) {
                Err(e) => Err(e),
                Ok((c, p3)) => Ok((UnityPropertySheetView { tex_envs: t, floats: f, colors: c }, p3)),
            },
        },
    }
}

fn read_text(buf: &[u8], pos: usize, big: bool) -> (r: Result<(AlignedString, usize), ReadError>)
    ensures
        match spec_text(buf@, pos as int, big) {
            Ok((s, p)) => r matches Ok((a, q)) && a.string@ == s && q == p,
            Err(e) => r matches Err(f) && f == e,
        },
{
    AlignedString::read(buf, pos, big)
}

fn read_tags(buf: &[u8], pos: usize, big: bool) -> (r: Result<(Vec<StringMap>, usize), ReadError>)
    ensures
        match spec_counted(buf@, pos as int, big, |p: int| spec_tag(buf@, p, big)) {
            Ok((v, p)) => r matches Ok((w, q)) && tags_view(w@) == v && q == p,
            Err(e) => r matches Err(f) && f == e,
        },
{
    let len = buf.len();
    let n = read_count(buf, pos, big)?;
    let ghost item = |p: int| spec_tag(buf@, p, big);
    let mut out: Vec<StringMap> = Vec::new();
    assert(tags_view(out@) =~= seq![]);
    let mut p = pos + 4;
    let mut i: u32 = 0;
    while i < n
        invariant
            i <= n,
            item == (|p: int| spec_tag(buf@, p, big)),
            spec_counted(buf@, pos as int, big, item) == spec_list(p as int, n - i, item, tags_view(out@)),
        decreases n - i,
    {
        let (first, p1) = read_text(buf, p, big)?;
        let (second, q) = read_text(buf, p1, big)?;
        let ghost before = tags_view(out@);
        out.push(StringMap { first, second });
        assert(tags_view(out@) =~= before.push((out@.last().first.string@, out@.last().second.string@)));
        p = q;
        i = i + 1;
    }
    Ok((out, p))
}

fn read_texts(buf: &[u8], pos: usize, big: bool) -> (r: Result<(Vec<AlignedString>, usize), ReadError>)
    ensures
        match spec_counted(buf@, pos as int, big, |p: int| spec_text(buf@, p, big)) {
            Ok((v, p)) => r matches Ok((w, q)) && texts_view(w@) == v && q == p,
            Err(e) => r matches Err(f) && f == e,
        },
{
    let len = buf.len();
    let n = read_count(buf, pos, big)?;
    let ghost item = |p: int| spec_text(buf@, p, big);
    let mut out: Vec<AlignedString> = Vec::new();
    assert(texts_view(out@) =~= seq![]);
    let mut p = pos + 4;
    let mut i: u32 = 0;
    while i < n
        invariant
            i <= n,
            item == (|p: int| spec_text(buf@, p, big)),
            spec_counted(buf@, pos as int, big, item) == spec_list(p as int, n - i, item, texts_view(out@)),
        decreases n - i,
    {
        let (s, q) = read_text(buf, p, big)?;
        let ghost before = texts_view(out@);
        out.push(s);
        assert(texts_view(out@) =~= before.push(out@.last().string@));
        p = q;
        i = i + 1;
    }
    Ok((out, p))
}

fn read_tex_envs(buf: &[u8], pos: usize, big: bool) -> (r: Result<(Vec<StringMapUnityTexEnv>, usize), ReadError>)
    ensures
        match spec_counted(buf@, pos as int, big, |p: int| spec_tex_env(buf@, p, big)) {
            Ok((v, p)) => r matches Ok((w, q)) && tex_envs_view(w@) == v && q == p,
            Err(e) => r matches Err(f) && f == e,
        },
{
    let len = buf.len();
    let n = read_count(buf, pos, big)?;
    let ghost item = |p: int| spec_tex_env(buf@, p, big);
    let mut out: Vec<StringMapUnityTexEnv> = Vec::new();
    assert(tex_envs_view(out@) =~= seq![]);
    let mut p = pos + 4;
    let mut i: u32 = 0;
    while i < n
        invariant
            i <= n,
            item == (|p: int| spec_tex_env(buf@, p, big)),
            spec_counted(buf@, pos as int, big, item) == spec_list(p as int, n - i, item, tex_envs_view(out@)),
        decreases n - i,
    {
        let (e, q) = StringMapUnityTexEnv::read(buf, p, big)?;
        let ghost before = tex_envs_view(out@);
        out.push(e);
        assert(tex_envs_view(out@) =~= before.push((out@.last().first.string@, out@.last().second)));
        p = q;
        i = i + 1;
    }
    Ok((out, p))
}

fn read_floats(buf: &[u8], pos: usize, big: bool) -> (r: Result<(Vec<NamedFloat>, usize), ReadError>)
    ensures
        match spec_counted(buf@, pos as int, big, |p: int| spec_named_float(buf@, p, big)) {
            Ok((v, p)) => r matches Ok((w, q)) && floats_view(w@) == v && q == p,
            Err(e) => r matches Err(f) && f == e,
        },
{
    let len = buf.len();
    let n = read_count(buf, pos, big)?;
    let ghost item = |p: int| spec_named_float(buf@, p, big);
    let mut out: Vec<NamedFloat> = Vec::new();
    assert(floats_view(out@) =~= seq![]);
    let mut p = pos + 4;
    let mut i: u32 = 0;
    while i < n
        invariant
            i <= n,
            len == buf@.len(),
            item == (|p: int| spec_named_float(buf@, p, big)),
            spec_counted(buf@, pos as int, big, item) == spec_list(p as int, n - i, item, floats_view(out@)),
        decreases n - i,
    {
        let (first, p1) = read_text(buf, p, big)?;
        let second = match read_u32(buf, p1, big) {
            Some(v) => v,
            None => return Err(ReadError::UnexpectedEof),
        };
        let ghost before = floats_view(out@);
        out.push(NamedFloat { first, second });
        assert(floats_view(out@) =~= before.push((out@.last().first.string@, second)));
        p = p1 + 4;
        i = i + 1;
    }
    Ok((out, p))
}

fn read_colors(buf: &[u8], pos: usize, big: bool) -> (r: Result<(Vec<NamedColor>, usize), ReadError>)
    ensures
        match spec_counted(buf@, pos as int, big, |p: int| spec_named_color(buf@, p, big)) {
            Ok((v, p)) => r matches Ok((w, q)) && colors_view(w@) == v && q == p,
            Err(e) => r matches Err(f) && f == e,
        },
{
    let len = buf.len();
    let n = read_count(buf, pos, big)?;
    let ghost item = |p: int| spec_named_color(buf@, p, big);
    let mut out: Vec<NamedColor> = Vec::new();
    assert(colors_view(out@) =~= seq![]);
    let mut p = pos + 4;
    let mut i: u32 = 0;
    while i < n
        invariant
            i <= n,
            len == buf@.len(),
            item == (|p: int| spec_named_color(buf@, p, big)),
            spec_counted(buf@, pos as int, big, item) == spec_list(p as int, n - i, item, colors_view(out@)),
        decreases n - i,
    {
        let (first, p1) = read_text(buf, p, big)?;
        if !has_bytes(len, p1, 16) {
            return Err(ReadError::UnexpectedEof);
        }
        let r = match read_u32(buf, p1, big) {
            Some(v) => v,
            None => return Err(ReadError::UnexpectedEof),
        };
        let g = match read_u32(buf, p1 + 4, big) {
            Some(v) => v,
            None => return Err(ReadError::UnexpectedEof),
        };
        let b = match read_u32(buf, p1 + 8, big) {
            Some(v) => v,
            None => return Err(ReadError::UnexpectedEof),
        };
        let a = match read_u32(buf, p1 + 12, big) {
            Some(v) => v,
            None => return Err(ReadError::UnexpectedEof),
        };
        let ghost before = colors_view(out@);
        out.push(NamedColor { first, r, g, b, a });
        assert(colors_view(out@) =~= before.push((out@.last().first.string@, seq![r, g, b, a])));
        p = p1 + 16;
        i = i + 1;
    }
    Ok((out, p))
}

impl UnityPropertySheet {
    pub fn read(buf: &[u8], pos: usize, big: bool) -> (r: Result<(UnityPropertySheet, usize), ReadError>)
        ensures
            match spec_property_sheet(buf@, pos as int, big) {
                Ok((v, p)) => r matches Ok((s, q)) && s@ == v && q == p,
                Err(e) => r matches Err(f) && f == e,
            },
    {
        let (tex_envs, p1) = read_tex_envs(buf, pos, big)?;
        let (floats, p2) = read_floats(buf, p1, big)?;
        let (colors, p3) = read_colors(buf, p2, big)?;
        Ok((UnityPropertySheet { tex_envs, floats, colors }, p3))
    }
}

/// A material.
#[derive(Debug, Clone, PartialEq, Eq)]
pub struct Material {
    pub name: AlignedString,
    pub shader: ObjectPointer,
    pub shader_keywords: AlignedString,
    pub lightmap_flags: u32,
    pub enable_instancing_variants: U8Bool,
    pub custom_render_queue: i32,
    pub string_tag_map: Vec<StringMap>,
    pub disabled_shader_passes: Vec<AlignedString>,
    pub saved_properties: UnityPropertySheet,
}

pub struct MaterialView {
    pub name: Seq<u8>,
    pub shader: ObjectPointer,
    pub shader_keywords: Seq<u8>,
    pub lightmap_flags: u32,
    pub enable_instancing_variants: bool,
    pub custom_render_queue: i32,
    pub string_tag_map: Seq<(Seq<u8>, Seq<u8>)>,
    pub disabled_shader_passes: Seq<Seq<u8>>,
    pub saved_properties: UnityPropertySheetView,
}

impl View for Material {
    type V = MaterialView;

    open spec fn view(&self) -> MaterialView {
        MaterialView {
            name: self.name.string@,
            shader: self.shader,
            shader_keywords: self.shader_keywords.string@,
            lightmap_flags: self.lightmap_flags,
            enable_instancing_variants: self.enable_instancing_variants.0,
            custom_render_queue: self.custom_render_queue,
            string_tag_map: tags_view(self.string_tag_map@),
            disabled_shader_passes: texts_view(self.disabled_shader_passes@),
            saved_properties: self.saved_properties@,
        }
    }
}

/// A material: its name, shader, keywords, lightmap flags, the instancing flag, the
/// render queue (aligned to 4 bytes), tags, disabled passes and property sheet.
pub open spec fn spec_material(buf: Seq<u8>, pos: int, big: bool) -> Result<(MaterialView, int), ReadError> {
    match spec_text(buf, pos, big) {
        Err(e) => Err(e),
        Ok((name, p1)) => match ObjectPointer::spec_read(buf, p1, big) {
            Err(e) => Err(e),
            Ok((shader, p2)) => match spec_text(buf, p2, big) {
                Err(e) => Err(e),
                Ok((keywords, p3)) => if !fits(buf, p3, 5) {
                    Err(ReadError::UnexpectedEof)
                } else if align_up(p3 + 5, 4) > usize::MAX {
                    Err(ReadError::Overflow)
                } else {
                    let q = align_up(p3 + 5, 4);
                    match opt_i32(buf, q, big) {
                        None => Err(ReadError::UnexpectedEof),
                        Some(queue) => match spec_counted(buf, q + 4, big, |p: int| spec_tag(buf, p, big)) {
                            Err(e) => Err(e),
                            Ok((tags, p4)) => match spec_counted(buf, p4, big, |p: int| spec_text(buf, p, big)) {
                                Err(e) => Err(e),
                                Ok((passes, p5)) => match spec_property_sheet(buf, p5, big) {
                                    Err(e) => Err(e),
                                    Ok((sheet, p6)) => Ok(
                                        (
                                            MaterialView {
                                                name,
                                                shader,
                                                shader_keywords: keywords,
                                                lightmap_flags: opt_u32(buf, p3, big)->Some_0,
                                                enable_instancing_variants: buf[p3 + 4] != 0,
                                                custom_render_queue: queue,
                                                string_tag_map: tags,
                                                disabled_shader_passes: passes,
                                                saved_properties: sheet,
                                            },
                                            p6,
                                        ),
                                    ),
                                },
                            },
                        },
                    }
                },
            },
        },
    }
}

impl Material {
    pub fn read(buf: &[u8], pos: usize, big: bool) -> (r: Result<(Material, usize), ReadError>)
        ensures
            match spec_material(buf@, pos as int, big) {
                Ok((v, p)) => r matches Ok((m, q)) && m@ == v && q == p,
                Err(e) => r matches Err(f) && f == e,
            },
    {
        let len = buf.len();
        let (name, p1) = read_text(buf, pos, big)?;
        let (shader, p2) = ObjectPointer::read(buf, p1, big)?;
        let (shader_keywords, p3) = read_text(buf, p2, big)?;
        if !has_bytes(len, p3, 5) {
            return Err(ReadError::UnexpectedEof);
        }
        let lightmap_flags = match read_u32(buf, p3, big) {
            Some(v) => v,
            None => return Err(ReadError::UnexpectedEof),
        };
        let (enable_instancing_variants, _) = U8Bool::read(buf, p3 + 4)?;
        let q = match align_up_exec(p3 + 5, 4) {
            Some(q) => q,
            None => return Err(ReadError::Overflow),
        };
        let custom_render_queue = match read_i32(buf, q, big) {
            Some(v) => v,
            None => return Err(ReadError::UnexpectedEof),
        };
        let (string_tag_map, p4) = read_tags(buf, q + 4, big)?;
        let (disabled_shader_passes, p5) = read_texts(buf, p4, big)?;
        let (saved_properties, p6) = UnityPropertySheet::read(buf, p5, big)?;
        Ok(
            (
                Material {
                    name,
                    shader,
                    shader_keywords,
                    lightmap_flags,
                    enable_instancing_variants,
                    custom_render_queue,
                    string_tag_map,
                    disabled_shader_passes,
                    saved_properties,
                },
                p6,
            ),
        )
    }
}

} // verus!
