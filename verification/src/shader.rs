//! Custom post-process shaders: source preprocessing and the bookkeeping of
//! the shader chain's render targets.

use vstd::prelude::*;

use crate::text::{
    chars_of, copy_range, has_prefix, is_white_space, lacks_char, lemma_split_lines_concat,
    lemma_split_lines_final_newline, lemma_split_lines_lack, lemma_trim_lack, lemma_newline_index,
    newline_index, split_lines, starts_with, string_from_chars, string_views, strip_cr, trim,
    trim_bounds, trim_start, with_final_newline,
};

verus! {

/// Header prepended to user fragment shaders (ghostty-compatible uniforms).
///
/// Bridges OpenGL (bottom-left origin) to ghostty/Metal (top-left origin):
/// - fragCoord.y is flipped in the main() wrapper
/// - texture() is redefined to flip UV.y for correct sampling
/// - Cursor rects stay in top-left origin (matching ghostty convention)
///
/// `MAX_CURSORS` must match [`MAX_MULTI_CURSORS`].
pub const FRAGMENT_HEADER: &'static str = "#version 330 core\n\nuniform sampler2D iChannel0;\nuniform vec2 iResolution;\n// Note: iTime is f32 and loses sub-ms precision after ~4.5 hours of uptime.\n// This matches ghostty/shadertoy behavior and is standard for shader uniforms.\nuniform float iTime;\nuniform float iTimeCursorChange;\nuniform vec4 iCurrentCursor;\nuniform vec4 iPreviousCursor;\nuniform vec4 iCurrentCursorColor;\nuniform float iCursorVisible;\nuniform vec2 iCellSize;\n\n#define MAX_CURSORS 64\nuniform vec4 iCursors[MAX_CURSORS];\nuniform vec4 iPreviousCursors[MAX_CURSORS];\nuniform int iCursorTypes[MAX_CURSORS];\nuniform int iCursorCount;\nuniform int iPreviousCursorCount;\nuniform float iTimeModeChange;\nuniform vec2 iMousePosition;\n\nout vec4 fragColor;\n\n// Flip texture V for OpenGL->Metal coordinate bridge.\nvec4 _tex_compat(sampler2D s, vec2 uv) {\n    return textureLod(s, vec2(uv.x, 1.0 - uv.y), 0.0);\n}\n#define texture(s, uv) _tex_compat(s, uv)\n\n";

/// Wrapper: flip fragCoord.y to top-left origin, undefine texture macro
/// so the real texture() is available for any post-mainImage code.
pub const FRAGMENT_MAIN_WRAPPER: &'static str = "\n#undef texture\nvoid main() {\n    mainImage(fragColor, vec2(gl_FragCoord.x, iResolution.y - gl_FragCoord.y));\n}\n";

/// Largest number of cursors handed to a shader.
pub const MAX_MULTI_CURSORS: usize = 64;

/// Deepest nesting of `#pragma include` that is expanded.
pub const MAX_INCLUDE_DEPTH: u8 = 16;

/// `s` without a leading byte order mark.
pub open spec fn strip_bom(s: Seq<char>) -> Seq<char> {
    if s.len() > 0 && s[0] == '\u{feff}' {
        s.drop_first()
    } else {
        s
    }
}

/// Whether a (preprocessed) shader source is a standalone shader: after a
/// byte order mark and leading white space it starts with `#version`.
pub open spec fn is_standalone_shader(source: Seq<char>) -> bool {
    starts_with(trim_start(strip_bom(source)), "#version"@)
}

/// The fragment shader made from an include-expanded user source.
pub open spec fn preprocessed_shader(expanded: Seq<char>) -> Seq<char> {
    if is_standalone_shader(expanded) {
        expanded
    } else {
        FRAGMENT_HEADER@ + expanded + FRAGMENT_MAIN_WRAPPER@
    }
}

/// Preprocess a user shader source whose includes are expanded.
///
/// If the source starts with `#version` (after trimming whitespace/BOM), it
/// is used as-is (standalone shader). Otherwise, the ghostty-compatible
/// header is prepended and a `main()` wrapper calling `mainImage()` is
/// appended.
pub fn preprocess_shader(expanded: &str) -> (r: String)
    ensures
        r@ == preprocessed_shader(expanded@),
{
    let chars = chars_of(expanded);
    let start: usize = if chars.len() > 0 && chars[0] == '\u{feff}' {
        1
    } else {
        0
    };
    let mut rest: Vec<char> = Vec::new();
    let mut i: usize = start;
    while i < chars.len()
        invariant
            start <= i <= chars@.len(),
            rest@ == chars@.subrange(start as int, i as int),
        decreases chars@.len() - i,
    {
        rest.push(chars[i]);
        i = i + 1;
        proof {
            assert(rest@ =~= chars@.subrange(start as int, i as int));
        }
    }
    proof {
        assert(rest@ =~= strip_bom(expanded@));
    }
    let (lead, _) = trim_bounds(rest.as_slice());
    let mut trimmed: Vec<char> = Vec::new();
    let mut i: usize = lead;
    while i < rest.len()
        invariant
            lead <= i <= rest@.len(),
            trimmed@ == rest@.subrange(lead as int, i as int),
        decreases rest@.len() - i,
    {
        trimmed.push(rest[i]);
        i = i + 1;
        proof {
            assert(trimmed@ =~= rest@.subrange(lead as int, i as int));
        }
    }
    proof {
        assert(trimmed@ =~= rest@.skip(lead as int));
    }
    let version = chars_of("#version");
    if has_prefix(trimmed.as_slice(), version.as_slice()) {
        String::from_str(expanded)
    } else {
        let mut out = String::from_str(FRAGMENT_HEADER);
        out.append(expanded);
        out.append(FRAGMENT_MAIN_WRAPPER);
        out
    }
}

/// Preprocessing a preprocessed shader changes nothing.
pub proof fn lemma_preprocess_idempotent(source: Seq<char>)
    ensures
        preprocessed_shader(preprocessed_shader(source)) == preprocessed_shader(source),
{
    if !is_standalone_shader(source) {
        let p = FRAGMENT_HEADER@ + source + FRAGMENT_MAIN_WRAPPER@;
        reveal_strlit("#version 330 core\n\nuniform sampler2D iChannel0;\nuniform vec2 iResolution;\n// Note: iTime is f32 and loses sub-ms precision after ~4.5 hours of uptime.\n// This matches ghostty/shadertoy behavior and is standard for shader uniforms.\nuniform float iTime;\nuniform float iTimeCursorChange;\nuniform vec4 iCurrentCursor;\nuniform vec4 iPreviousCursor;\nuniform vec4 iCurrentCursorColor;\nuniform float iCursorVisible;\nuniform vec2 iCellSize;\n\n#define MAX_CURSORS 64\nuniform vec4 iCursors[MAX_CURSORS];\nuniform vec4 iPreviousCursors[MAX_CURSORS];\nuniform int iCursorTypes[MAX_CURSORS];\nuniform int iCursorCount;\nuniform int iPreviousCursorCount;\nuniform float iTimeModeChange;\nuniform vec2 iMousePosition;\n\nout vec4 fragColor;\n\n// Flip texture V for OpenGL->Metal coordinate bridge.\nvec4 _tex_compat(sampler2D s, vec2 uv) {\n    return textureLod(s, vec2(uv.x, 1.0 - uv.y), 0.0);\n}\n#define texture(s, uv) _tex_compat(s, uv)\n\n");
        reveal_strlit("#version");
        assert(p[0] == '#');
        assert(strip_bom(p) == p);
        assert(!is_white_space(p[0]));
        assert(trim_start(p) == p);
        assert(p.take(8) =~= "#version"@);
    }
}

/// The file named by a `#pragma include "filename.glsl"` line: after
/// trimming, the line starts with `#pragma include` and the rest, trimmed,
/// is a name between double quotes.
pub open spec fn include_target_of(line: Seq<char>) -> Option<Seq<char>> {
    let t = trim(line);
    let directive = "#pragma include"@;
    if starts_with(t, directive) {
        let rest = trim(t.skip(directive.len() as int));
        if rest.len() >= 2 && rest[0] == '"' && rest.last() == '"' {
            Some(rest.subrange(1, rest.len() - 1))
        } else {
            None
        }
    } else {
        None
    }
}

/// The file an include directive line names, if the line is one.
pub fn include_target(line: &str) -> (r: Option<String>)
    ensures
        match r {
            Some(name) => include_target_of(line@) == Some(name@),
            None => include_target_of(line@) is None,
        },
{
    let chars = chars_of(line);
    let (s, e) = trim_bounds(chars.as_slice());
    let t = copy_range(chars.as_slice(), s, e);
    let directive = chars_of("#pragma include");
    proof {
        reveal_strlit("#pragma include");
    }
    if !has_prefix(t.as_slice(), directive.as_slice()) {
        return None;
    }
    let after = copy_range(t.as_slice(), directive.len(), t.len());
    proof {
        assert(after@ =~= t@.skip(directive@.len() as int));
    }
    let (s2, e2) = trim_bounds(after.as_slice());
    let rest = copy_range(after.as_slice(), s2, e2);
    if rest.len() >= 2 && rest[0] == '"' && rest[rest.len() - 1] == '"' {
        let name = copy_range(rest.as_slice(), 1, rest.len() - 1);
        Some(string_from_chars(name.as_slice()))
    } else {
        None
    }
}

/// A shader source rebuilt line by line: each line replaced by its expanded
/// include where there is one, and each followed by a line feed.
pub open spec fn assembled_source(lines: Seq<Seq<char>>, expansions: Seq<Option<Seq<char>>>) -> Seq<
    char,
>
    decreases lines.len(),
{
    if lines.len() == 0 {
        seq![]
    } else {
        let last = lines.len() - 1;
        let body = match expansions[last] {
            Some(text) => text,
            None => lines[last],
        };
        assembled_source(lines.drop_last(), expansions.take(last)) + body + seq!['\n']
    }
}

/// The character sequences of optional strings.
pub open spec fn optional_views(v: Seq<Option<String>>) -> Seq<Option<Seq<char>>> {
    v.map_values(
        |o: Option<String>|
            match o {
                Some(s) => Some(s@),
                None => None,
            },
    )
}

/// The lines of a shader source, in the order `#pragma include` expansion
/// walks them.
pub fn source_lines(source: &str) -> (r: Vec<String>)
    ensures
        string_views(r@) == crate::text::split_lines(source@),
{
    crate::text::lines_of(source)
}

/// Rebuild a shader source from its lines and, for each line, the expanded
/// text of the file it includes (`None` keeps the line itself).
pub fn assemble_expanded(lines: &[String], expansions: &[Option<String>]) -> (r: String)
    requires
        lines@.len() == expansions@.len(),
    ensures
        r@ == assembled_source(string_views(lines@), optional_views(expansions@)),
{
    let ghost ls = string_views(lines@);
    let ghost es = optional_views(expansions@);
    let mut result = String::from_str("");
    proof {
        reveal_strlit("");
        assert(ls.take(0) =~= seq![]);
    }
    let mut i: usize = 0;
    while i < lines.len()
        invariant
            i <= lines@.len() == expansions@.len(),
            ls == string_views(lines@),
            es == optional_views(expansions@),
            result@ == assembled_source(ls.take(i as int), es.take(i as int)),
        decreases lines@.len() - i,
    {
        match &expansions[i] {
            Some(text) => result.append(text.as_str()),
            None => result.append(lines[i].as_str()),
        }
        result.append("\n");
        proof {
            reveal_strlit("\n");
            assert(ls.take(i + 1).drop_last() =~= ls.take(i as int));
            assert(es.take(i + 1).take(i as int) =~= es.take(i as int));
            assert(ls.take(i + 1)[i as int] == lines@[i as int]@);
            assert(es.take(i + 1)[i as int] == es[i as int]);
        }
        i = i + 1;
    }
    proof {
        assert(ls.take(lines@.len() as int) =~= ls);
        assert(es.take(lines@.len() as int) =~= es);
    }
    result
}

/// Which lines of a source expand: the expansion handed in for an include
/// line (`None` when its file could not be read), `None` for every other
/// line.
pub open spec fn include_choices(
    lines: Seq<Seq<char>>,
    expansions: Seq<Option<Seq<char>>>,
) -> Seq<Option<Seq<char>>> {
    Seq::new(
        lines.len(),
        |i: int|
            if include_target_of(lines[i]) is Some && i < expansions.len() {
                expansions[i]
            } else {
                None
            },
    )
}

/// A shader source with its `#pragma include` lines expanded at nesting
/// `depth`: beyond [`MAX_INCLUDE_DEPTH`] the source stays as it is;
/// otherwise each include line whose file was read is replaced by the
/// file's expanded text, and every line is followed by a line feed.
pub open spec fn expanded_text(source: Seq<char>, depth: nat, expansions: Seq<Option<Seq<char>>>) -> Seq<
    char,
> {
    if depth > MAX_INCLUDE_DEPTH {
        source
    } else {
        let lines = crate::text::split_lines(source);
        assembled_source(lines, include_choices(lines, expansions))
    }
}

/// The files that a shader source at nesting `depth` asks to include, one
/// entry per line (`None` for a line that is no include); `None` when the
/// nesting is too deep for any expansion.
pub fn include_plan(source: &str, depth: u8) -> (r: Option<Vec<Option<String>>>)
    ensures
        r is None <==> depth > MAX_INCLUDE_DEPTH,
        r matches Some(targets) ==> {
            let lines = crate::text::split_lines(source@);
            &&& targets@.len() == lines.len()
            &&& forall|i: int|
                0 <= i < lines.len() ==> #[trigger] optional_views(targets@)[i] == include_target_of(
                    lines[i],
                )
        },
{
    if depth > MAX_INCLUDE_DEPTH {
        return None;
    }
    let lines = source_lines(source);
    let ghost views = string_views(lines@);
    let mut targets: Vec<Option<String>> = Vec::new();
    let mut i: usize = 0;
    while i < lines.len()
        invariant
            i <= lines@.len(),
            views == string_views(lines@),
            views == crate::text::split_lines(source@),
            targets@.len() == i,
            forall|j: int|
                0 <= j < i ==> #[trigger] optional_views(targets@)[j] == include_target_of(views[j]),
        decreases lines@.len() - i,
    {
        let t = include_target(lines[i].as_str());
        let ghost before = targets@;
        targets.push(t);
        proof {
            assert forall|j: int| 0 <= j < i + 1 implies #[trigger] optional_views(targets@)[j]
                == include_target_of(views[j]) by {
                if j < i {
                    assert(targets@[j] == before[j]);
                    assert(optional_views(before)[j] == include_target_of(views[j]));
                } else {
                    assert(views[j] == lines@[j]@);
                }
            }
        }
        i = i + 1;
    }
    Some(targets)
}

/// Expand the include lines of a shader source at nesting `depth`, given
/// for each line the expanded text of the file it includes (`None` where
/// the file could not be read); entries for lines that are no include are
/// ignored.
pub fn expand_includes_with(source: &str, depth: u8, expansions: &[Option<String>]) -> (r: String)
    ensures
        r@ == expanded_text(source@, depth as nat, optional_views(expansions@)),
{
    if depth > MAX_INCLUDE_DEPTH {
        return String::from_str(source);
    }
    let lines = source_lines(source);
    let ghost views = string_views(lines@);
    let ghost es = optional_views(expansions@);
    let mut chosen: Vec<Option<String>> = Vec::new();
    let mut i: usize = 0;
    while i < lines.len()
        invariant
            i <= lines@.len(),
            views == string_views(lines@),
            es == optional_views(expansions@),
            chosen@.len() == i,
            forall|j: int|
                0 <= j < i ==> #[trigger] optional_views(chosen@)[j] == include_choices(views, es)[j],
        decreases lines@.len() - i,
    {
        let is_include = include_target(lines[i].as_str()).is_some();
        let pick: Option<String> = if is_include && i < expansions.len() {
            match &expansions[i] {
                Some(text) => Some(text.clone()),
                None => None,
            }
        } else {
            None
        };
        let ghost before = chosen@;
        chosen.push(pick);
        proof {
            assert forall|j: int| 0 <= j < i + 1 implies #[trigger] optional_views(chosen@)[j]
                == include_choices(views, es)[j] by {
                if j < i {
                    assert(chosen@[j] == before[j]);
                    assert(optional_views(before)[j] == include_choices(views, es)[j]);
                } else {
                    assert(views[j] == lines@[j]@);
                    if i < expansions@.len() {
                        assert(es[j] == match expansions@[j] {
                            Some(t) => Some(t@),
                            None => None,
                        });
                    }
                }
            }
        }
        i = i + 1;
    }
    proof {
        assert(optional_views(chosen@) =~= include_choices(views, es));
    }
    assemble_expanded(lines.as_slice(), chosen.as_slice())
}

/// Rebuilding the lines `a + b` is rebuilding `a`, then `b`.
proof fn lemma_assembled_concat(
    a: Seq<Seq<char>>,
    ea: Seq<Option<Seq<char>>>,
    b: Seq<Seq<char>>,
    eb: Seq<Option<Seq<char>>>,
)
    requires
        a.len() == ea.len(),
        b.len() == eb.len(),
    ensures
        assembled_source(a + b, ea + eb) == assembled_source(a, ea) + assembled_source(b, eb),
    decreases b.len(),
{
    if b.len() == 0 {
        assert(a + b =~= a);
        assert(ea + eb =~= ea);
        assert(assembled_source(a, ea) + assembled_source(b, eb) =~= assembled_source(a, ea));
    } else {
        let last = b.len() - 1;
        let b2 = b.drop_last();
        let eb2 = eb.take(last);
        lemma_assembled_concat(a, ea, b2, eb2);
        assert((a + b).drop_last() =~= a + b2);
        assert((ea + eb).take(a.len() + last) =~= ea + eb2);
        assert((a + b)[a.len() + last] == b[last]);
        assert((ea + eb)[a.len() + last] == eb[last]);
        let body = match eb[last] {
            Some(text) => text,
            None => b[last],
        };
        assert(assembled_source(a + b, ea + eb) == assembled_source(a + b2, ea + eb2) + body
            + seq!['\n']);
        assert(assembled_source(b, eb) == assembled_source(b2, eb2) + body + seq!['\n']);
        assert(assembled_source(a + b, ea + eb) =~= assembled_source(a, ea) + assembled_source(
            b,
            eb,
        ));
    }
}

/// No expansion for any of `k` lines.
pub open spec fn no_expansions(k: nat) -> Seq<Option<Seq<char>>> {
    Seq::new(k, |i: int| None)
}

/// Splitting a text without carriage returns into lines and rebuilding it
/// without expansions gives the text ending with a line feed.
proof fn lemma_assemble_plain(t: Seq<char>)
    requires
        lacks_char(t, '\r'),
    ensures
        assembled_source(split_lines(t), no_expansions(split_lines(t).len())) == with_final_newline(t),
    decreases t.len(),
{
    if t.len() == 0 {
        assert(split_lines(t) =~= Seq::<Seq<char>>::empty());
    } else {
        lemma_newline_index(t, 0);
        let k = newline_index(t, 0);
        if k < t.len() {
            let rest = t.skip(k + 1);
            let first = t.take(k);
            assert(lacks_char(rest, '\r')) by {
                assert forall|i: int| 0 <= i < rest.len() implies #[trigger] rest[i] != '\r' by {
                    assert(rest[i] == t[i + k + 1]);
                }
            }
            lemma_assemble_plain(rest);
            if k > 0 {
                assert(first.last() == t[k - 1]);
            }
            assert(strip_cr(first) == first);
            let lines = split_lines(t);
            let rest_lines = split_lines(rest);
            assert(lines == seq![first] + rest_lines);
            assert(no_expansions(lines.len()) =~= no_expansions(1) + no_expansions(rest_lines.len()));
            lemma_assembled_concat(seq![first], no_expansions(1), rest_lines, no_expansions(rest_lines.len()));
            assert(seq![first].drop_last() =~= Seq::<Seq<char>>::empty());
            assert(assembled_source(seq![first], no_expansions(1)) == assembled_source(
                Seq::<Seq<char>>::empty(),
                no_expansions(1).take(0),
            ) + first + seq!['\n']);
            assert(assembled_source(seq![first], no_expansions(1)) =~= first + seq!['\n']);
            if rest.len() == 0 {
                assert(t[t.len() - 1] == '\n');
                assert(t =~= first + seq!['\n']);
            } else {
                assert(rest.last() == t.last());
                assert(t =~= first + seq!['\n'] + rest);
                assert(with_final_newline(t) =~= first + seq!['\n'] + with_final_newline(rest));
            }
            assert(assembled_source(lines, no_expansions(lines.len())) =~= with_final_newline(t));
        } else {
            assert(t[t.len() - 1] != '\n');
            assert(split_lines(t) == seq![t]);
            assert(seq![t].drop_last() =~= Seq::<Seq<char>>::empty());
            assert(assembled_source(seq![t], no_expansions(1)) == assembled_source(
                Seq::<Seq<char>>::empty(),
                no_expansions(1).take(0),
            ) + t + seq!['\n']);
            assert(assembled_source(split_lines(t), no_expansions(1)) =~= t.push('\n'));
        }
    }
}

/// A line without double quotes names no include.
proof fn lemma_no_include_without_quote(line: Seq<char>)
    requires
        lacks_char(line, '"'),
    ensures
        include_target_of(line) is None,
{
    let t = trim(line);
    lemma_trim_lack(line, '"');
    let directive = "#pragma include"@;
    if starts_with(t, directive) {
        let after = t.skip(directive.len() as int);
        assert(lacks_char(after, '"')) by {
            assert forall|i: int| 0 <= i < after.len() implies #[trigger] after[i] != '"' by {
                assert(after[i] == t[i + directive.len()]);
            }
        }
        lemma_trim_lack(after, '"');
    }
}

/// A text whose lines name no include expands to itself ending with a
/// line feed.
proof fn lemma_expand_plain(t: Seq<char>, depth: nat, expansions: Seq<Option<Seq<char>>>)
    requires
        depth <= MAX_INCLUDE_DEPTH,
        lacks_char(t, '\r'),
        forall|i: int| 0 <= i < split_lines(t).len() ==> (#[trigger] include_target_of(split_lines(t)[i])) is None,
    ensures
        expanded_text(t, depth, expansions) == with_final_newline(t),
{
    let lines = split_lines(t);
    assert(include_choices(lines, expansions) =~= no_expansions(lines.len()));
    lemma_assemble_plain(t);
}

/// Facts about the shader header and `main()` wrapper: no double quotes,
/// no carriage returns, and each ends with a line feed.
proof fn lemma_shader_frame()
    ensures
        lacks_char(FRAGMENT_HEADER@, '"'),
        lacks_char(FRAGMENT_HEADER@, '\r'),
        FRAGMENT_HEADER@.len() > 0 && FRAGMENT_HEADER@.last() == '\n',
        lacks_char(FRAGMENT_MAIN_WRAPPER@, '"'),
        lacks_char(FRAGMENT_MAIN_WRAPPER@, '\r'),
        FRAGMENT_MAIN_WRAPPER@.len() > 0 && FRAGMENT_MAIN_WRAPPER@.last() == '\n',
{
    reveal_strlit("#version 330 core\n\nuniform sampler2D iChannel0;\nuniform vec2 iResolution;\n// Note: iTime is f32 and loses sub-ms precision after ~4.5 hours of uptime.\n// This matches ghostty/shadertoy behavior and is standard for shader uniforms.\nuniform float iTime;\nuniform float iTimeCursorChange;\nuniform vec4 iCurrentCursor;\nuniform vec4 iPreviousCursor;\nuniform vec4 iCurrentCursorColor;\nuniform float iCursorVisible;\nuniform vec2 iCellSize;\n\n#define MAX_CURSORS 64\nuniform vec4 iCursors[MAX_CURSORS];\nuniform vec4 iPreviousCursors[MAX_CURSORS];\nuniform int iCursorTypes[MAX_CURSORS];\nuniform int iCursorCount;\nuniform int iPreviousCursorCount;\nuniform float iTimeModeChange;\nuniform vec2 iMousePosition;\n\nout vec4 fragColor;\n\n// Flip texture V for OpenGL->Metal coordinate bridge.\nvec4 _tex_compat(sampler2D s, vec2 uv) {\n    return textureLod(s, vec2(uv.x, 1.0 - uv.y), 0.0);\n}\n#define texture(s, uv) _tex_compat(s, uv)\n\n");
    reveal_strlit("\n#undef texture\nvoid main() {\n    mainImage(fragColor, vec2(gl_FragCoord.x, iResolution.y - gl_FragCoord.y));\n}\n");
}

/// Building the shader a second time from a built shader gives it back:
/// for a source without carriage returns and without include lines, the
/// include expansion (whatever the included files hold) and the header and
/// wrapper step leave a preprocessed shader unchanged.
pub proof fn lemma_shader_build_idempotent(
    source: Seq<char>,
    depth: nat,
    first: Seq<Option<Seq<char>>>,
    second: Seq<Option<Seq<char>>>,
)
    requires
        lacks_char(source, '\r'),
        forall|i: int|
            0 <= i < split_lines(source).len() ==> (#[trigger] include_target_of(split_lines(source)[i])) is None,
    ensures
        ({
            let built = preprocessed_shader(expanded_text(source, depth, first));
            preprocessed_shader(expanded_text(built, depth, second)) == built
        }),
{
    if depth > MAX_INCLUDE_DEPTH {
        lemma_preprocess_idempotent(source);
    } else {
        lemma_expand_plain(source, depth, first);
        let u = with_final_newline(source);
        lemma_split_lines_final_newline(source);
        assert(lacks_char(u, '\r'));
        lemma_preprocess_idempotent(u);
        let p = preprocessed_shader(u);
        if is_standalone_shader(u) {
            lemma_expand_plain(p, depth, second);
        } else {
            lemma_shader_frame();
            let h = FRAGMENT_HEADER@;
            let w = FRAGMENT_MAIN_WRAPPER@;
            assert(p == h + u + w);
            lemma_split_lines_concat(h, u);
            if u.len() > 0 {
                assert((h + u).last() == u.last());
            } else {
                assert(h + u =~= h);
            }
            lemma_split_lines_concat(h + u, w);
            lemma_split_lines_lack(h, '"');
            lemma_split_lines_lack(w, '"');
            let lh = split_lines(h);
            let lu = split_lines(u);
            let lw = split_lines(w);
            assert(split_lines(p) == lh + lu + lw);
            assert forall|i: int| 0 <= i < split_lines(p).len() implies (#[trigger] include_target_of(
                split_lines(p)[i],
            )) is None by {
                if i < lh.len() {
                    assert(split_lines(p)[i] == lh[i]);
                    lemma_no_include_without_quote(lh[i]);
                } else if i < lh.len() + lu.len() {
                    assert(split_lines(p)[i] == lu[i - lh.len()]);
                } else {
                    assert(split_lines(p)[i] == lw[i - lh.len() - lu.len()]);
                    lemma_no_include_without_quote(lw[i - lh.len() - lu.len()]);
                }
            }
            assert(lacks_char(p, '\r')) by {
                assert forall|i: int| 0 <= i < p.len() implies #[trigger] p[i] != '\r' by {
                    if i < h.len() {
                        assert(p[i] == h[i]);
                    } else if i < h.len() + u.len() {
                        assert(p[i] == u[i - h.len()]);
                    } else {
                        assert(p[i] == w[i - h.len() - u.len()]);
                    }
                }
            }
            assert(p.last() == w.last());
            lemma_expand_plain(p, depth, second);
        }
    }
}

/// Number of cursor slots uploaded to a shader: the larger of the current
/// and previous cursor counts, at most [`MAX_MULTI_CURSORS`]; zero or less
/// means nothing is uploaded.
pub fn cursor_upload_count(cursor_count: i32, prev_cursor_count: i32) -> (r: i32)
    ensures
        r == if cursor_count >= prev_cursor_count {
            if cursor_count <= MAX_MULTI_CURSORS { cursor_count } else { MAX_MULTI_CURSORS as i32 }
        } else {
            if prev_cursor_count <= MAX_MULTI_CURSORS {
                prev_cursor_count
            } else {
                MAX_MULTI_CURSORS as i32
            }
        },
{
    let larger = if cursor_count >= prev_cursor_count {
        cursor_count
    } else {
        prev_cursor_count
    };
    if larger <= 64 {
        larger
    } else {
        64
    }
}

/// A compiled custom shader program: its GL program object and the
/// locations of its uniforms.
#[derive(Clone, Copy, Debug, PartialEq, Eq)]
pub struct CustomShaderProgram {
    pub program: u32,
    pub u_channel0: i32,
    pub u_resolution: i32,
    pub u_time: i32,
    pub u_time_cursor_change: i32,
    pub u_current_cursor: i32,
    pub u_previous_cursor: i32,
    pub u_current_cursor_color: i32,
    pub u_cursor_visible: i32,
    pub u_cell_size: i32,
    pub u_cursors: i32,
    pub u_prev_cursors: i32,
    pub u_cursor_types: i32,
    pub u_cursor_count: i32,
    pub u_prev_cursor_count: i32,
    pub u_time_mode_change: i32,
    pub u_mouse_pos: i32,
}

/// A GL object that is no longer used and has to be deleted.
#[derive(Clone, Copy, Debug, PartialEq, Eq)]
pub enum GlObject {
    Framebuffer(u32),
    Texture(u32),
}

/// One pass of the post-process chain.
#[derive(Clone, Copy, Debug, PartialEq, Eq)]
pub struct ShaderPass {
    /// Index of the program that runs.
    pub program: usize,
    /// Texture bound as `iChannel0`.
    pub input_texture: u32,
    /// Texture unit of the input (1 for the scene, 2 and 3 for ping-pong).
    pub input_unit: i32,
    /// Framebuffer to bind before drawing (`Some(0)` is the screen); `None`
    /// keeps the current binding.
    pub target: Option<u32>,
}

/// Mathematical model of a [`CustomShaderPipeline`].
pub struct PipelineModel {
    pub programs: Seq<CustomShaderProgram>,
    pub vao: u32,
    pub vertex_shader: u32,
    pub fbo: u32,
    pub fbo_texture: u32,
    pub fbo_width: i32,
    pub fbo_height: i32,
    pub ping_fbos: (u32, u32),
    pub ping_textures: (u32, u32),
}

/// Manages a chain of custom post-process shaders with shared GL resources.
///
/// Records the scene FBO, shared VAO, shared vertex shader, ping-pong FBOs,
/// and the list of compiled shader programs; the GL calls themselves are
/// made by the renderer, which this type tells what to create, bind and
/// delete.
pub struct CustomShaderPipeline {
    programs: Vec<CustomShaderProgram>,
    vao: u32,
    vertex_shader: u32,
    // Scene FBO (lazily allocated).
    fbo: u32,
    fbo_texture: u32,
    fbo_width: i32,
    fbo_height: i32,
    // Ping-pong FBOs + textures for multi-shader chaining. Each FBO has its
    // own attached texture. Only allocated when programs.len() >= 2.
    ping_fbos: [u32; 2],
    ping_textures: [u32; 2],
}

impl View for CustomShaderPipeline {
    type V = PipelineModel;

    closed spec fn view(&self) -> PipelineModel {
        PipelineModel {
            programs: self.programs@,
            vao: self.vao,
            vertex_shader: self.vertex_shader,
            fbo: self.fbo,
            fbo_texture: self.fbo_texture,
            fbo_width: self.fbo_width,
            fbo_height: self.fbo_height,
            ping_fbos: (self.ping_fbos@[0], self.ping_fbos@[1]),
            ping_textures: (self.ping_textures@[0], self.ping_textures@[1]),
        }
    }
}

/// The GL objects a pipeline in state `m` releases when its scene FBO is
/// deleted, in the order they are deleted: the scene framebuffer and its
/// texture, then the ping-pong framebuffers and textures; unallocated
/// (zero) handles are skipped.
pub open spec fn released_fbo_objects(m: PipelineModel) -> Seq<GlObject> {
    (if m.fbo != 0 { seq![GlObject::Framebuffer(m.fbo)] } else { seq![] }) + (if m.fbo_texture != 0 {
        seq![GlObject::Texture(m.fbo_texture)]
    } else {
        seq![]
    }) + released_ping_pong_objects(m)
}

/// The ping-pong objects a pipeline in state `m` releases.
pub open spec fn released_ping_pong_objects(m: PipelineModel) -> Seq<GlObject> {
    (if m.ping_fbos.0 != 0 { seq![GlObject::Framebuffer(m.ping_fbos.0)] } else { seq![] }) + (if m.ping_fbos.1
        != 0 {
        seq![GlObject::Framebuffer(m.ping_fbos.1)]
    } else {
        seq![]
    }) + (if m.ping_textures.0 != 0 {
        seq![GlObject::Texture(m.ping_textures.0)]
    } else {
        seq![]
    }) + (if m.ping_textures.1 != 0 { seq![GlObject::Texture(m.ping_textures.1)] } else { seq![] })
}

/// The pipeline state after deleting the ping-pong buffers.
pub open spec fn without_ping_pong(m: PipelineModel) -> PipelineModel {
    PipelineModel { ping_fbos: (0, 0), ping_textures: (0, 0), ..m }
}

/// The pipeline state after deleting the scene FBO (and ping-pong buffers).
pub open spec fn without_fbo(m: PipelineModel) -> PipelineModel {
    PipelineModel {
        fbo: 0,
        fbo_texture: 0,
        fbo_width: 0,
        fbo_height: 0,
        ping_fbos: (0, 0),
        ping_textures: (0, 0),
        ..m
    }
}

/// Pass `i` of the post-process chain of a pipeline in state `m`.
///
/// A single shader reads the scene texture (unit 1) and draws to whatever
/// is bound. In a chain, the first shader reads the scene, each later one
/// reads the ping-pong texture the previous one wrote (units 2 and 3 in
/// turn), intermediate shaders write the ping-pong FBOs in turn and the last
/// one writes to the screen.
pub open spec fn chain_pass(m: PipelineModel, i: int) -> ShaderPass {
    let n = m.programs.len();
    let read_idx = (i - 1) % 2;
    let write_idx = i % 2;
    let (input_texture, input_unit) = if i == 0 {
        (m.fbo_texture, 1i32)
    } else if read_idx == 0 {
        (m.ping_textures.0, 2i32)
    } else {
        (m.ping_textures.1, 3i32)
    };
    let target = if n == 1 {
        None
    } else if i == n - 1 {
        Some(0u32)
    } else if write_idx == 0 {
        Some(m.ping_fbos.0)
    } else {
        Some(m.ping_fbos.1)
    };
    ShaderPass { program: i as usize, input_texture, input_unit, target }
}

/// In a chain of two or more shaders, every pass after the first reads the
/// texture of the ping-pong buffer the pass before it wrote, and never the
/// one it writes itself.
pub proof fn lemma_chain_passes_link(m: PipelineModel, i: int)
    requires
        m.programs.len() >= 2,
        1 <= i < m.programs.len(),
    ensures
        (i - 1) % 2 == 0 ==> chain_pass(m, i - 1).target == Some(m.ping_fbos.0) && chain_pass(
            m,
            i,
        ).input_texture == m.ping_textures.0,
        (i - 1) % 2 == 1 ==> chain_pass(m, i - 1).target == Some(m.ping_fbos.1) && chain_pass(
            m,
            i,
        ).input_texture == m.ping_textures.1,
        i < m.programs.len() - 1 ==> (i % 2 != (i - 1) % 2),
        chain_pass(m, m.programs.len() - 1).target == Some(0u32),
        chain_pass(m, 0).input_texture == m.fbo_texture,
{
}

/// Deleting the scene FBO leaves no FBO behind, and deleting again releases
/// nothing.
pub proof fn lemma_delete_fbo_idempotent(m: PipelineModel)
    ensures
        without_fbo(m).fbo == 0,
        released_fbo_objects(without_fbo(m)) == Seq::<GlObject>::empty(),
        without_fbo(without_fbo(m)) == without_fbo(m),
{
    assert(released_fbo_objects(without_fbo(m)) =~= Seq::<GlObject>::empty());
}

/// What a renderer must do to get a scene framebuffer of a given size.
pub enum FboRequest {
    /// The current framebuffer already has that size.
    Ready,
    /// Delete `release`, then create a scene framebuffer and texture, and
    /// two ping-pong framebuffers with textures when `ping_pong`.
    Allocate { release: Vec<GlObject>, ping_pong: bool },
}

/// Ping-pong framebuffers and textures a renderer created, and whether
/// both framebuffers were complete.
#[derive(Clone, Copy, Debug, PartialEq, Eq)]
pub struct PingPongAllocation {
    pub fbos: [u32; 2],
    pub textures: [u32; 2],
    pub complete: bool,
}

/// The scene framebuffer and texture a renderer created, whether the
/// framebuffer was complete, and the ping-pong buffers it then created.
#[derive(Clone, Copy, Debug, PartialEq, Eq)]
pub struct FboAllocation {
    pub fbo: u32,
    pub texture: u32,
    pub complete: bool,
    pub ping_pong: Option<PingPongAllocation>,
}

/// Pipeline state `m` with a new scene framebuffer and texture.
pub open spec fn with_scene(m: PipelineModel, fbo: u32, texture: u32) -> PipelineModel {
    PipelineModel { fbo, fbo_texture: texture, ..m }
}

/// Pipeline state `m` with new ping-pong buffers.
pub open spec fn with_ping_pong(m: PipelineModel, pp: PingPongAllocation) -> PipelineModel {
    PipelineModel {
        ping_fbos: (pp.fbos@[0], pp.fbos@[1]),
        ping_textures: (pp.textures@[0], pp.textures@[1]),
        ..m
    }
}

/// The outcome of recording allocation `a` of a `width` x `height` scene
/// framebuffer in state `m`: whether the pipeline has it, the state after,
/// and the GL objects to delete, in order. An incomplete scene framebuffer
/// is deleted again; with two or more shaders, incomplete ping-pong buffers
/// are deleted first, then the scene framebuffer.
pub open spec fn fbo_outcome(m: PipelineModel, width: i32, height: i32, a: FboAllocation) -> (
    bool,
    PipelineModel,
    Seq<GlObject>,
) {
    let m1 = with_scene(m, a.fbo, a.texture);
    if !a.complete {
        (false, without_fbo(m1), released_fbo_objects(m1))
    } else if m.programs.len() >= 2 {
        let pp = a.ping_pong->0;
        let m2 = with_ping_pong(m1, pp);
        if pp.complete {
            (true, PipelineModel { fbo_width: width, fbo_height: height, ..m2 }, seq![])
        } else {
            (
                false,
                without_fbo(without_ping_pong(m2)),
                released_ping_pong_objects(m2) + released_fbo_objects(without_ping_pong(m2)),
            )
        }
    } else {
        (true, PipelineModel { fbo_width: width, fbo_height: height, ..m1 }, seq![])
    }
}

/// Once a scene framebuffer of a size was recorded as complete (with a
/// nonzero handle), asking for the same size again needs nothing more.
pub proof fn lemma_ensured_fbo_is_ready(m: PipelineModel, width: i32, height: i32, a: FboAllocation)
    requires
        fbo_outcome(m, width, height, a).0,
        a.fbo != 0,
    ensures
        ({
            let after = fbo_outcome(m, width, height, a).1;
            &&& after.fbo == a.fbo
            &&& after.fbo_width == width
            &&& after.fbo_height == height
        }),
{
}

/// A call that changes a pipeline's framebuffers: making sure a scene
/// framebuffer of a size exists ([`CustomShaderPipeline::begin_ensure_fbo`],
/// then, unless it was ready, [`CustomShaderPipeline::finish_ensure_fbo`]
/// with what the renderer created), deleting it, deleting the ping-pong
/// buffers, or releasing the framebuffer of a frame without effects.
/// Binding and drawing change nothing.
pub enum PipelineOp {
    Ensure { width: i32, height: i32, allocation: FboAllocation },
    DeleteFbo,
    DeletePingPong,
    ReleaseWhenIdle { effect_active: bool },
}

/// The result of `op` on a pipeline in state `m` (for an ensure, whether
/// it succeeded), and the state after it.
pub open spec fn apply_op(m: PipelineModel, op: PipelineOp) -> (bool, PipelineModel) {
    match op {
        PipelineOp::Ensure { width, height, allocation } => {
            if m.fbo != 0 && m.fbo_width == width && m.fbo_height == height {
                (true, m)
            } else {
                let o = fbo_outcome(without_fbo(m), width, height, allocation);
                (o.0, o.1)
            }
        },
        PipelineOp::DeleteFbo => (false, without_fbo(m)),
        PipelineOp::DeletePingPong => (false, without_ping_pong(m)),
        PipelineOp::ReleaseWhenIdle { effect_active } => (
            false,
            if !effect_active && m.fbo != 0 {
                without_fbo(m)
            } else {
                m
            },
        ),
    }
}

/// The state after the calls `ops`, from state `m`.
pub open spec fn run_ops(m: PipelineModel, ops: Seq<PipelineOp>) -> PipelineModel
    decreases ops.len(),
{
    if ops.len() == 0 {
        m
    } else {
        apply_op(run_ops(m, ops.drop_last()), ops.last()).1
    }
}

/// Whether a scene framebuffer survives the calls `ops` from state `m`:
/// the last ensure among them succeeded and no deletion (nor a release in
/// a frame without effects) came after it; with no such call, whether `m`
/// had one.
pub open spec fn fbo_survives(m: PipelineModel, ops: Seq<PipelineOp>) -> bool
    decreases ops.len(),
{
    if ops.len() == 0 {
        m.fbo != 0
    } else {
        match ops.last() {
            PipelineOp::Ensure { .. } => apply_op(run_ops(m, ops.drop_last()), ops.last()).0,
            PipelineOp::DeleteFbo => false,
            PipelineOp::DeletePingPong => fbo_survives(m, ops.drop_last()),
            PipelineOp::ReleaseWhenIdle { effect_active } => effect_active && fbo_survives(
                m,
                ops.drop_last(),
            ),
        }
    }
}

/// Whether every complete scene framebuffer that `ops` report has a
/// nonzero handle, as GL gives.
pub open spec fn nonzero_handles(ops: Seq<PipelineOp>) -> bool {
    forall|i: int|
        0 <= i < ops.len() ==> match #[trigger] ops[i] {
            PipelineOp::Ensure { allocation, .. } => allocation.complete ==> allocation.fbo != 0,
            _ => true,
        }
}

/// A pipeline has a scene framebuffer exactly when an ensure succeeded
/// and neither a deletion nor a failed ensure (nor a release in a frame
/// without effects) came after it; in particular a new pipeline has none.
pub proof fn lemma_has_fbo_follows_ensures(m: PipelineModel, ops: Seq<PipelineOp>)
    requires
        nonzero_handles(ops),
    ensures
        (run_ops(m, ops).fbo != 0) == fbo_survives(m, ops),
    decreases ops.len(),
{
    if ops.len() > 0 {
        let prefix = ops.drop_last();
        assert(nonzero_handles(prefix)) by {
            assert forall|i: int| 0 <= i < prefix.len() implies match #[trigger] prefix[i] {
                PipelineOp::Ensure { allocation, .. } => allocation.complete ==> allocation.fbo != 0,
                _ => true,
            } by {
                assert(prefix[i] == ops[i]);
            }
        }
        lemma_has_fbo_follows_ensures(m, prefix);
        let last = ops.last();
        assert(last == ops[ops.len() - 1]);
    }
}

fn append_objects(out: &mut Vec<GlObject>, more: Vec<GlObject>)
    ensures
        final(out)@ == old(out)@ + more@,
{
    let mut k: usize = 0;
    while k < more.len()
        invariant
            k <= more@.len(),
            out@ == old(out)@ + more@.take(k as int),
        decreases more@.len() - k,
    {
        out.push(more[k]);
        k = k + 1;
        proof {
            assert(out@ =~= old(out)@ + more@.take(k as int));
        }
    }
    proof {
        assert(more@.take(more@.len() as int) =~= more@);
    }
}

impl CustomShaderPipeline {
    #[verifier::type_invariant]
    spec fn wf(self) -> bool {
        self.programs@.len() >= 1
    }

    /// Create a pipeline from its compiled programs, the shared VAO and the
    /// shared vertex shader. A pipeline needs at least one program.
    pub fn new(programs: Vec<CustomShaderProgram>, vao: u32, vertex_shader: u32) -> (r: Option<Self>)
        ensures
            r is Some <==> programs@.len() > 0,
            r matches Some(p) ==> p@ == (PipelineModel {
                programs: programs@,
                vao,
                vertex_shader,
                fbo: 0,
                fbo_texture: 0,
                fbo_width: 0,
                fbo_height: 0,
                ping_fbos: (0, 0),
                ping_textures: (0, 0),
            }),
    {
        if programs.len() == 0 {
            return None;
        }
        Some(
            CustomShaderPipeline {
                programs,
                vao,
                vertex_shader,
                fbo: 0,
                fbo_texture: 0,
                fbo_width: 0,
                fbo_height: 0,
                ping_fbos: [0, 0],
                ping_textures: [0, 0],
            },
        )
    }

    /// Number of shaders in the chain (at least one).
    pub fn shader_count(&self) -> (r: usize)
        ensures
            r == self@.programs.len(),
            r >= 1,
    {
        proof {
            use_type_invariant(self);
        }
        self.programs.len()
    }

    /// The compiled program at position `i` of the chain.
    pub fn program(&self, i: usize) -> (r: CustomShaderProgram)
        requires
            i < self@.programs.len(),
        ensures
            r == self@.programs[i as int],
    {
        self.programs[i]
    }

    /// The shared vertex array object.
    pub fn vao(&self) -> (r: u32)
        ensures
            r == self@.vao,
    {
        self.vao
    }

    /// The shared vertex shader.
    pub fn vertex_shader(&self) -> (r: u32)
        ensures
            r == self@.vertex_shader,
    {
        self.vertex_shader
    }

    /// The scene framebuffer (0 when none is allocated).
    pub fn fbo(&self) -> (r: u32)
        ensures
            r == self@.fbo,
    {
        self.fbo
    }

    /// The texture attached to the scene framebuffer.
    pub fn fbo_texture(&self) -> (r: u32)
        ensures
            r == self@.fbo_texture,
    {
        self.fbo_texture
    }

    /// The two ping-pong framebuffers.
    pub fn ping_fbos(&self) -> (r: [u32; 2])
        ensures
            r@[0] == self@.ping_fbos.0,
            r@[1] == self@.ping_fbos.1,
    {
        self.ping_fbos
    }

    /// The two ping-pong textures.
    pub fn ping_textures(&self) -> (r: [u32; 2])
        ensures
            r@[0] == self@.ping_textures.0,
            r@[1] == self@.ping_textures.1,
    {
        self.ping_textures
    }

    /// Whether a scene FBO is currently allocated.
    pub fn has_fbo(&self) -> (r: bool)
        ensures
            r == (self@.fbo != 0),
    {
        self.fbo != 0
    }

    /// Whether the scene FBO exists and matches the given dimensions, so
    /// that it can be used as it is.
    pub fn fbo_matches(&self, width: i32, height: i32) -> (r: bool)
        ensures
            r == (self@.fbo != 0 && self@.fbo_width == width && self@.fbo_height == height),
    {
        self.fbo != 0 && self.fbo_width == width && self.fbo_height == height
    }

    /// Whether the chain needs ping-pong buffers (two or more shaders).
    pub fn needs_ping_pong(&self) -> (r: bool)
        ensures
            r == (self@.programs.len() >= 2),
    {
        self.programs.len() >= 2
    }

    /// Record a newly created scene framebuffer and its texture; the size is
    /// recorded once the framebuffer is complete.
    pub fn attach_fbo(&mut self, fbo: u32, texture: u32)
        ensures
            final(self)@ == (PipelineModel { fbo, fbo_texture: texture, ..old(self)@ }),
    {
        proof {
            use_type_invariant(&*self);
        }
        self.fbo = fbo;
        self.fbo_texture = texture;
    }

    /// Record the size of a complete scene framebuffer.
    pub fn set_fbo_size(&mut self, width: i32, height: i32)
        ensures
            final(self)@ == (PipelineModel { fbo_width: width, fbo_height: height, ..old(self)@ }),
    {
        proof {
            use_type_invariant(&*self);
        }
        self.fbo_width = width;
        self.fbo_height = height;
    }

    /// Record newly created ping-pong framebuffers and their textures.
    pub fn attach_ping_pong(&mut self, fbos: [u32; 2], textures: [u32; 2])
        ensures
            final(self)@ == (PipelineModel {
                ping_fbos: (fbos@[0], fbos@[1]),
                ping_textures: (textures@[0], textures@[1]),
                ..old(self)@
            }),
    {
        proof {
            use_type_invariant(&*self);
        }
        self.ping_fbos = fbos;
        self.ping_textures = textures;
    }

    /// Forget the ping-pong resources, returning the GL objects to delete.
    pub fn delete_ping_pong(&mut self) -> (r: Vec<GlObject>)
        ensures
            final(self)@ == without_ping_pong(old(self)@),
            r@ == released_ping_pong_objects(old(self)@),
    {
        proof {
            use_type_invariant(&*self);
        }
        let mut released: Vec<GlObject> = Vec::new();
        if self.ping_fbos[0] != 0 {
            released.push(GlObject::Framebuffer(self.ping_fbos[0]));
        }
        if self.ping_fbos[1] != 0 {
            released.push(GlObject::Framebuffer(self.ping_fbos[1]));
        }
        if self.ping_textures[0] != 0 {
            released.push(GlObject::Texture(self.ping_textures[0]));
        }
        if self.ping_textures[1] != 0 {
            released.push(GlObject::Texture(self.ping_textures[1]));
        }
        self.ping_fbos = [0, 0];
        self.ping_textures = [0, 0];
        proof {
            assert(released@ =~= released_ping_pong_objects(old(self)@));
        }
        released
    }

    /// Forget the scene FBO, its texture and the ping-pong resources,
    /// returning the GL objects to delete.
    pub fn delete_fbo(&mut self) -> (r: Vec<GlObject>)
        ensures
            final(self)@ == without_fbo(old(self)@),
            r@ == released_fbo_objects(old(self)@),
    {
        proof {
            use_type_invariant(&*self);
        }
        let mut released: Vec<GlObject> = Vec::new();
        if self.fbo != 0 {
            released.push(GlObject::Framebuffer(self.fbo));
            self.fbo = 0;
        }
        if self.fbo_texture != 0 {
            released.push(GlObject::Texture(self.fbo_texture));
            self.fbo_texture = 0;
        }
        self.fbo_width = 0;
        self.fbo_height = 0;
        let ghost first = released@;
        let ping = self.delete_ping_pong();
        let mut k: usize = 0;
        while k < ping.len()
            invariant
                k <= ping@.len(),
                released@ == first + ping@.take(k as int),
            decreases ping@.len() - k,
        {
            released.push(ping[k]);
            k = k + 1;
            proof {
                assert(released@ =~= first + ping@.take(k as int));
            }
        }
        proof {
            assert(ping@.take(ping@.len() as int) =~= ping@);
            assert(released@ =~= released_fbo_objects(old(self)@));
        }
        released
    }

    /// First step of making sure a `width` x `height` scene framebuffer
    /// exists: nothing to do when the current one has that size; otherwise
    /// the current one (and the ping-pong buffers) are forgotten and the
    /// renderer is told what to delete and what to create.
    pub fn begin_ensure_fbo(&mut self, width: i32, height: i32) -> (r: FboRequest)
        ensures
            (old(self)@.fbo != 0 && old(self)@.fbo_width == width && old(self)@.fbo_height == height)
                ==> r is Ready && final(self)@ == old(self)@,
            !(old(self)@.fbo != 0 && old(self)@.fbo_width == width && old(self)@.fbo_height
                == height) ==> (r matches FboRequest::Allocate { release, ping_pong } && release@
                == released_fbo_objects(old(self)@) && ping_pong == (old(self)@.programs.len() >= 2)
                && final(self)@ == without_fbo(old(self)@)),
    {
        if self.fbo_matches(width, height) {
            return FboRequest::Ready;
        }
        let release = self.delete_fbo();
        FboRequest::Allocate { release, ping_pong: self.needs_ping_pong() }
    }

    /// Second step: record what the renderer created. Returns whether the
    /// pipeline now has a complete `width` x `height` scene framebuffer, and
    /// the GL objects to delete because the allocation failed.
    pub fn finish_ensure_fbo(&mut self, width: i32, height: i32, a: FboAllocation) -> (r: (
        bool,
        Vec<GlObject>,
    ))
        requires
            a.complete && old(self)@.programs.len() >= 2 ==> a.ping_pong is Some,
        ensures
            (r.0, final(self)@, r.1@) == fbo_outcome(old(self)@, width, height, a),
    {
        self.attach_fbo(a.fbo, a.texture);
        if !a.complete {
            let released = self.delete_fbo();
            return (false, released);
        }
        if self.needs_ping_pong() {
            match a.ping_pong {
                Some(pp) => {
                    self.attach_ping_pong(pp.fbos, pp.textures);
                    if !pp.complete {
                        let mut released = self.delete_ping_pong();
                        let scene = self.delete_fbo();
                        append_objects(&mut released, scene);
                        return (false, released);
                    }
                },
                None => {},
            }
        }
        self.set_fbo_size(width, height);
        (true, Vec::new())
    }

    /// Free the scene framebuffer of a frame without effects, as when the
    /// shaders were removed: returns the GL objects to delete, none while
    /// effects run or when no framebuffer exists.
    pub fn release_when_idle(&mut self, effect_active: bool) -> (r: Vec<GlObject>)
        ensures
            !effect_active && old(self)@.fbo != 0 ==> final(self)@ == without_fbo(old(self)@)
                && r@ == released_fbo_objects(old(self)@),
            !(!effect_active && old(self)@.fbo != 0) ==> final(self)@ == old(self)@ && r@.len() == 0,
    {
        if !effect_active && self.has_fbo() {
            self.delete_fbo()
        } else {
            Vec::new()
        }
    }

    /// The passes of the post-process chain, in the order they run.
    pub fn draw_passes(&self) -> (r: Vec<ShaderPass>)
        ensures
            r@.len() == self@.programs.len(),
            forall|i: int| 0 <= i < r@.len() ==> r@[i] == chain_pass(self@, i),
    {
        proof {
            use_type_invariant(self);
        }
        let n = self.programs.len();
        let mut passes: Vec<ShaderPass> = Vec::new();
        if n == 1 {
            // Single shader: read scene FBO (TEXTURE1), write to screen.
            passes.push(ShaderPass { program: 0, input_texture: self.fbo_texture, input_unit: 1, target: None });
            return passes;
        }
        // write_idx tracks which ping FBO to render into next.
        let mut write_idx: usize = 0;
        let mut i: usize = 0;
        while i < n
            invariant
                n == self@.programs.len(),
                n >= 2,
                i <= n,
                write_idx < 2,
                i < n ==> write_idx == i % 2,
                passes@.len() == i,
                forall|k: int| 0 <= k < i ==> passes@[k] == chain_pass(self@, k),
            decreases n - i,
        {
            let is_last = i == n - 1;
            let (input_texture, input_unit) = if i == 0 {
                (self.fbo_texture, 1i32)
            } else {
                let read_idx = 1 - write_idx;
                (self.ping_textures[read_idx], 2 + read_idx as i32)
            };
            let target = if is_last {
                Some(0u32)
            } else {
                Some(self.ping_fbos[write_idx])
            };
            passes.push(ShaderPass { program: i, input_texture, input_unit, target });
            if !is_last {
                write_idx = 1 - write_idx;
            }
            i = i + 1;
        }
        passes
    }
}

} // verus!
