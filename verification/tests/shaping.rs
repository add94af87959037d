use std::path::Path;
use std::sync::Arc;

use alacritty::shaping::{layout_merged, layout_one_to_one, ShapedGlyph, Shaper};

const MONASPACE_NEON: &str = "/Users/pierloh/Library/Fonts/MonaspaceNeonNF-Regular.otf";

/// Font files cannot be read by these tests; a test that needs one is
/// skipped, as it is where the font is not installed.
fn load_font(path: &str) -> Option<Arc<[u8]>> {
    let p = Path::new(path);
    if p.exists() {
        println!("font {path} is installed but is not read here");
    }
    None
}

fn default_features() -> Vec<String> {
    ["calt", "liga", "ss01", "ss02", "ss03", "ss04", "ss05", "ss06", "ss07", "ss08", "ss09"]
        .iter()
        .map(|s| s.to_string())
        .collect()
}

#[test]
fn shaper_creates_from_valid_font() {
    let Some(data) = load_font(MONASPACE_NEON) else {
        println!("SKIP: Monaspace font not available");
        return;
    };
    assert!(Shaper::from_data(data, &default_features()).is_some());
}

#[test]
fn shaper_returns_none_for_empty_features() {
    let Some(data) = load_font(MONASPACE_NEON) else {
        println!("SKIP: Monaspace font not available");
        return;
    };
    assert!(Shaper::from_data(data, &[]).is_none());
}

#[test]
fn shape_line_detects_ligatures() {
    let Some(data) = load_font(MONASPACE_NEON) else {
        println!("SKIP: Monaspace font not available");
        return;
    };
    let mut shaper = Shaper::from_data(data, &default_features()).unwrap();
    let line: Vec<char> = "fn main() -> bool { x != y }".chars().collect();
    let result = shaper.shape_line(&line).unwrap();

    let shaped_count = result.glyphs.iter().filter(|g| g.is_some()).count();
    assert!(shaped_count > 0, "Should detect shaped glyphs in line with -> and !=");

    // Ligature members should be marked.
    let lig_count =
        result.glyphs.iter().filter(|g| g.as_ref().map_or(false, |g| g.is_ligature)).count();
    assert!(lig_count > 0, "Should have ligature-flagged glyphs for -> and !=");
}

#[test]
fn shape_empty_line() {
    let Some(data) = load_font(MONASPACE_NEON) else {
        println!("SKIP: Monaspace font not available");
        return;
    };
    let mut shaper = Shaper::from_data(data, &default_features()).unwrap();
    let result = shaper.shape_line(&[]).unwrap();
    assert!(result.glyphs.is_empty());
}

#[test]
fn cache_returns_consistent_results() {
    let Some(data) = load_font(MONASPACE_NEON) else {
        println!("SKIP: Monaspace font not available");
        return;
    };
    let mut shaper = Shaper::from_data(data, &default_features()).unwrap();
    let line: Vec<char> = "x -> y".chars().collect();

    let r1 = shaper.shape_line(&line).unwrap();
    let r2 = shaper.shape_line(&line).unwrap();

    assert_eq!(r1.glyphs.len(), r2.glyphs.len());
    for (a, b) in r1.glyphs.iter().zip(r2.glyphs.iter()) {
        match (a, b) {
            (Some(a), Some(b)) => {
                assert_eq!(a.glyph_id, b.glyph_id);
                assert_eq!(a.cell_span, b.cell_span);
            },
            (None, None) => {},
            _ => panic!("Cache returned inconsistent results"),
        }
    }
}

fn glyph(glyph_id: u32, cell_span: u8, is_ligature: bool) -> Option<ShapedGlyph> {
    Some(ShapedGlyph { glyph_id, cell_span, is_ligature })
}

#[test]
fn parse_features_keeps_four_byte_tags() {
    let tags: Vec<String> =
        ["calt", "li", "liga", "toolong", "ss01"].iter().map(|s| s.to_string()).collect();
    let parsed = Shaper::parse_features(&tags);
    assert_eq!(parsed, vec![0x63616c74, 0x6c696761, 0x73733031]);
}

#[test]
fn parse_features_counts_bytes_not_chars() {
    // "éa" is three characters but four bytes.
    let tags: Vec<String> = vec!["\u{e9}ab".to_string(), "abcd".to_string()];
    let parsed = Shaper::parse_features(&tags);
    assert_eq!(parsed, vec![0xc3a96162, 0x61626364]);
}

#[test]
fn from_data_rejects_bytes_that_are_no_font() {
    let data: Arc<[u8]> = Arc::from(vec![0u8, 1, 2, 3, 4, 5, 6, 7].into_boxed_slice());
    assert!(Shaper::from_data(data, &default_features()).is_none());
}

#[test]
fn one_to_one_keeps_only_changed_glyphs() {
    // Glyphs 1 and 2 changed and share a cluster; glyph 3 changed alone.
    let infos = [(10, 0), (21, 1), (22, 1), (33, 3), (40, 4)];
    let defaults = [10, 20, 30, 30, 40];
    let line = layout_one_to_one(&infos, &defaults);
    assert_eq!(line.glyphs, vec![None, glyph(21, 1, true), glyph(22, 1, true), glyph(33, 1, false), None]);
}

#[test]
fn one_to_one_unchanged_line_is_unshaped() {
    let infos = [(5, 0), (6, 1)];
    let defaults = [5, 6];
    let line = layout_one_to_one(&infos, &defaults);
    assert_eq!(line.glyphs, vec![None, None]);
}

#[test]
fn merged_ligature_spans_its_characters() {
    // "a->b": one glyph for "->" (cluster 1) spanning two columns.
    let chars: Vec<char> = "a->b".chars().collect();
    let infos = [(1, 0), (7, 1), (2, 3)];
    let line = layout_merged(&chars, &infos);
    assert_eq!(line.glyphs, vec![glyph(1, 1, false), glyph(7, 2, true), None, glyph(2, 1, false)]);
}

#[test]
fn merged_cluster_run_keeps_its_head_glyph() {
    // Two glyphs in cluster 0 covering "ab", then "c".
    let chars: Vec<char> = "abc".chars().collect();
    let infos = [(8, 0), (9, 0), (3, 2)];
    let line = layout_merged(&chars, &infos);
    assert_eq!(line.glyphs, vec![glyph(8, 2, true), None, glyph(3, 1, false)]);
}

#[test]
fn merged_clusters_use_byte_offsets() {
    // "é" takes two bytes: clusters are 0, 2 and 3.
    let chars: Vec<char> = "\u{e9}fi".chars().collect();
    let infos = [(4, 0), (5, 2)];
    let line = layout_merged(&chars, &infos);
    assert_eq!(line.glyphs, vec![glyph(4, 1, false), glyph(5, 2, true), None]);
}

#[test]
fn merged_span_is_clamped_and_skips_foreign_clusters() {
    let chars: Vec<char> = "abcdefghij".chars().collect();
    // Cluster 0 spans all ten characters (clamped to 7); cluster 99 is outside the line.
    let infos = [(1, 0), (2, 99)];
    let line = layout_merged(&chars, &infos);
    let mut expected = vec![None; 10];
    expected[0] = glyph(1, 7, true);
    assert_eq!(line.glyphs, expected);
}

#[test]
fn merged_right_to_left_clusters_span_their_own_cells() {
    let chars: Vec<char> = "abc".chars().collect();
    // Right-to-left output: clusters decrease. "ab" is one cluster, "c" another.
    let infos = [(1, 2), (2, 0)];
    let line = layout_merged(&chars, &infos);
    assert_eq!(line.glyphs, vec![glyph(2, 2, true), None, glyph(1, 1, false)]);
}

#[test]
fn merged_right_to_left_ligature_at_line_end() {
    let chars: Vec<char> = "abcd".chars().collect();
    // Clusters 2 ("cd") then 1 ("b") then 0 ("a").
    let infos = [(5, 2), (6, 1), (7, 0)];
    let line = layout_merged(&chars, &infos);
    assert_eq!(line.glyphs, vec![glyph(7, 1, false), glyph(6, 1, false), glyph(5, 2, true), None]);
}


/// A small TrueType font: glyphs for `a f i - > x`, an `fi` and a `->`
/// ligature under `liga`, and an alternate `x` under `ss01`.
const MINI_FONT: &[u8] = &[
    0x00, 0x01, 0x00, 0x00, 0x00, 0x06, 0x00, 0x40, 0x00, 0x02, 0x00, 0x20, 0x47, 0x53, 0x55, 0x42,
    0x00, 0x00, 0x00, 0x00, 0x00, 0x00, 0x00, 0x6c, 0x00, 0x00, 0x00, 0x84, 0x63, 0x6d, 0x61, 0x70,
    0x00, 0x00, 0x00, 0x00, 0x00, 0x00, 0x00, 0xf0, 0x00, 0x00, 0x00, 0xae, 0x68, 0x65, 0x61, 0x64,
    0x00, 0x00, 0x00, 0x00, 0x00, 0x00, 0x01, 0xa0, 0x00, 0x00, 0x00, 0x36, 0x68, 0x68, 0x65, 0x61,
    0x00, 0x00, 0x00, 0x00, 0x00, 0x00, 0x01, 0xd8, 0x00, 0x00, 0x00, 0x24, 0x68, 0x6d, 0x74, 0x78,
    0x00, 0x00, 0x00, 0x00, 0x00, 0x00, 0x01, 0xfc, 0x00, 0x00, 0x00, 0x28, 0x6d, 0x61, 0x78, 0x70,
    0x00, 0x00, 0x00, 0x00, 0x00, 0x00, 0x02, 0x24, 0x00, 0x00, 0x00, 0x06, 0x00, 0x01, 0x00, 0x00,
    0x00, 0x0a, 0x00, 0x20, 0x00, 0x3a, 0x00, 0x01, 0x44, 0x46, 0x4c, 0x54, 0x00, 0x08, 0x00, 0x04,
    0x00, 0x00, 0x00, 0x00, 0xff, 0xff, 0x00, 0x02, 0x00, 0x00, 0x00, 0x01, 0x00, 0x02, 0x6c, 0x69,
    0x67, 0x61, 0x00, 0x0e, 0x73, 0x73, 0x30, 0x31, 0x00, 0x14, 0x00, 0x00, 0x00, 0x01, 0x00, 0x00,
    0x00, 0x00, 0x00, 0x01, 0x00, 0x01, 0x00, 0x02, 0x00, 0x06, 0x00, 0x34, 0x00, 0x04, 0x00, 0x00,
    0x00, 0x01, 0x00, 0x08, 0x00, 0x01, 0x00, 0x0a, 0x00, 0x02, 0x00, 0x12, 0x00, 0x1c, 0x00, 0x01,
    0x00, 0x02, 0x00, 0x02, 0x00, 0x04, 0x00, 0x01, 0x00, 0x04, 0x00, 0x07, 0x00, 0x02, 0x00, 0x03,
    0x00, 0x01, 0x00, 0x04, 0x00, 0x08, 0x00, 0x02, 0x00, 0x05, 0x00, 0x01, 0x00, 0x00, 0x00, 0x01,
    0x00, 0x08, 0x00, 0x02, 0x00, 0x08, 0x00, 0x01, 0x00, 0x09, 0x00, 0x01, 0x00, 0x01, 0x00, 0x06,
    0x00, 0x00, 0x00, 0x01, 0x00, 0x03, 0x00, 0x01, 0x00, 0x00, 0x00, 0x0c, 0x00, 0x06, 0x00, 0xa2,
    0x00, 0x00, 0x00, 0x2d, 0x00, 0x4c, 0x00, 0x04, 0x00, 0x00, 0x00, 0x00, 0x00, 0x00, 0x00, 0x00,
    0x00, 0x00, 0x00, 0x00, 0x00, 0x00, 0x00, 0x00, 0x00, 0x00, 0x00, 0x00, 0x00, 0x00, 0x00, 0x00,
    0x00, 0x00, 0x00, 0x00, 0x00, 0x00, 0x00, 0x00, 0x00, 0x05, 0x00, 0x00, 0x00, 0x00, 0x00, 0x00,
    0x00, 0x00, 0x00, 0x00, 0x00, 0x00, 0x00, 0x00, 0x00, 0x00, 0x00, 0x00, 0x00, 0x00, 0x00, 0x00,
    0x00, 0x00, 0x00, 0x00, 0x00, 0x00, 0x00, 0x00, 0x00, 0x00, 0x00, 0x00, 0x00, 0x00, 0x00, 0x00,
    0x00, 0x00, 0x00, 0x00, 0x00, 0x00, 0x00, 0x00, 0x00, 0x00, 0x00, 0x00, 0x00, 0x00, 0x00, 0x00,
    0x00, 0x00, 0x00, 0x00, 0x00, 0x00, 0x00, 0x00, 0x00, 0x00, 0x00, 0x00, 0x00, 0x00, 0x00, 0x01,
    0x00, 0x00, 0x00, 0x00, 0x00, 0x00, 0x00, 0x00, 0x00, 0x02, 0x00, 0x00, 0x00, 0x00, 0x00, 0x03,
    0x00, 0x00, 0x00, 0x00, 0x00, 0x00, 0x00, 0x00, 0x00, 0x00, 0x00, 0x00, 0x00, 0x00, 0x00, 0x00,
    0x00, 0x00, 0x00, 0x00, 0x00, 0x00, 0x00, 0x00, 0x00, 0x00, 0x00, 0x00, 0x00, 0x06, 0x00, 0x00,
    0x00, 0x01, 0x00, 0x00, 0x00, 0x01, 0x00, 0x00, 0x00, 0x00, 0x00, 0x00, 0x5f, 0x0f, 0x3c, 0xf5,
    0x00, 0x00, 0x03, 0xe8, 0x00, 0x00, 0x00, 0x00, 0x00, 0x00, 0x00, 0x00, 0x00, 0x00, 0x00, 0x00,
    0x00, 0x00, 0x00, 0x00, 0x00, 0x00, 0x00, 0x00, 0x03, 0xe8, 0x03, 0xe8, 0x00, 0x00, 0x00, 0x08,
    0x00, 0x02, 0x00, 0x00, 0x00, 0x00, 0x00, 0x00, 0x00, 0x01, 0x00, 0x00, 0x03, 0x20, 0xff, 0x38,
    0x00, 0x00, 0x03, 0xe8, 0x00, 0x00, 0x00, 0x00, 0x03, 0xe8, 0x00, 0x01, 0x00, 0x00, 0x00, 0x00,
    0x00, 0x00, 0x00, 0x00, 0x00, 0x00, 0x00, 0x00, 0x00, 0x00, 0x00, 0x0a, 0x02, 0x58, 0x00, 0x00,
    0x02, 0x58, 0x00, 0x00, 0x02, 0x58, 0x00, 0x00, 0x02, 0x58, 0x00, 0x00, 0x02, 0x58, 0x00, 0x00,
    0x02, 0x58, 0x00, 0x00, 0x02, 0x58, 0x00, 0x00, 0x02, 0x58, 0x00, 0x00, 0x02, 0x58, 0x00, 0x00,
    0x02, 0x58, 0x00, 0x00, 0x00, 0x00, 0x50, 0x00, 0x00, 0x0a,
];

fn mini_shaper(tags: &[&str]) -> Shaper {
    let data: Arc<[u8]> = Arc::from(MINI_FONT.to_vec().into_boxed_slice());
    let tags: Vec<String> = tags.iter().map(|t| t.to_string()).collect();
    Shaper::from_data(data, &tags).unwrap()
}

#[test]
fn mini_font_ligature_is_merged() {
    let mut shaper = mini_shaper(&["liga"]);
    let line: Vec<char> = "afi".chars().collect();
    let shaped = shaper.shape_line(&line).unwrap();
    assert_eq!(shaped.glyphs, vec![glyph(1, 1, false), glyph(7, 2, true), None]);
}

#[test]
fn mini_font_arrow_ligature() {
    let mut shaper = mini_shaper(&["liga"]);
    let line: Vec<char> = "a->a".chars().collect();
    let shaped = shaper.shape_line(&line).unwrap();
    assert_eq!(shaped.glyphs, vec![glyph(1, 1, false), glyph(8, 2, true), None, glyph(1, 1, false)]);
}

#[test]
fn mini_font_alternate_is_one_to_one() {
    let mut shaper = mini_shaper(&["ss01"]);
    let line: Vec<char> = "xa".chars().collect();
    let shaped = shaper.shape_line(&line).unwrap();
    assert_eq!(shaped.glyphs, vec![glyph(9, 1, false), None]);
}

#[test]
fn mini_font_plain_text_is_unshaped() {
    let mut shaper = mini_shaper(&["ss01"]);
    let line: Vec<char> = "aaf".chars().collect();
    let shaped = shaper.shape_line(&line).unwrap();
    assert_eq!(shaped.glyphs, vec![None, None, None]);
}

#[test]
fn mini_font_cache_agrees_with_fresh_shaping() {
    let mut shaper = mini_shaper(&["liga", "ss01"]);
    let line: Vec<char> = "x->fi".chars().collect();
    let first = shaper.shape_line(&line).unwrap();
    let second = shaper.shape_line(&line).unwrap();
    assert_eq!(first.glyphs, second.glyphs);
    shaper.clear_cache();
    let third = shaper.shape_line(&line).unwrap();
    assert_eq!(first.glyphs, third.glyphs);
    assert!(shaper.shape_line(&[]).unwrap().glyphs.is_empty());
}

#[test]
fn mini_font_needs_usable_features() {
    let data: Arc<[u8]> = Arc::from(MINI_FONT.to_vec().into_boxed_slice());
    assert!(Shaper::from_data(data.clone(), &[]).is_none());
    assert!(Shaper::from_data(data.clone(), &["toolong".to_string()]).is_none());
    assert!(Shaper::from_data(data, &["liga".to_string()]).is_some());
}
