//! Labels of sensors and names of devices that come from templates.

use crate::encoding::{
    char_width, clean_char, lemma_encode_ascii, lemma_encode_clean, lemma_encode_empty,
    lemma_encode_push, width,
};
use crate::protocol::{valid_hwmon_name, valid_text, MAX_HWMON_NAME_BYTES, MAX_SENSOR_LABEL_BYTES};
use crate::seqs::lemma_filter_first;
use crate::text::{
    alphanumeric, chars_of, control, is_alphanumeric, is_control, optional_text, replace, replaced,
    string_of, trim_chars, trimmed,
};
use vstd::prelude::*;
use vstd::utf8::encode_utf8;

verus! {

// ── Labels ───────────────────────────────────────────────────────────────────

/// The characters of `s` up to `room` bytes, without control characters.
pub open spec fn clipped(s: Seq<char>, room: int) -> Seq<char>
    decreases s.len(),
{
    if s.len() == 0 {
        Seq::empty()
    } else if is_control(s[0]) {
        clipped(s.skip(1), room)
    } else if width(s[0]) > room {
        Seq::empty()
    } else {
        seq![s[0]] + clipped(s.skip(1), room - width(s[0]))
    }
}

/// A label made presentable: trimmed, without control characters, and cut to
/// the longest label there may be. Where nothing is left, the label is
/// `fallback`.
pub open spec fn normalized_label(label: Seq<char>, fallback: Seq<char>) -> Seq<char> {
    let kept = clipped(trimmed(label), MAX_SENSOR_LABEL_BYTES as int);
    if kept.len() == 0 {
        fallback
    } else {
        kept
    }
}

/// Makes a label presentable.
pub fn normalize_label(label: &str, fallback: &str) -> (out: String)
    ensures
        out@ == normalized_label(label@, fallback@),
{
    let chars = chars_of(label);
    let chars = trim_chars(&chars);
    let mut out: Vec<char> = Vec::new();
    let mut used: usize = 0;
    let mut i: usize = 0;
    let ghost whole = clipped(chars@, MAX_SENSOR_LABEL_BYTES as int);
    assert(chars@.skip(0) =~= chars@);
    assert(out@ + whole =~= whole);
    while i < chars.len()
        invariant_except_break
            i <= chars@.len(),
            used <= MAX_SENSOR_LABEL_BYTES,
            out@ + clipped(chars@.skip(i as int), MAX_SENSOR_LABEL_BYTES - used) == whole,
        ensures
            out@ == whole,
        decreases chars@.len() - i,
    {
        let c = chars[i];
        let ghost rest = chars@.skip(i as int);
        let ghost before = out@;
        assert(rest[0] == c);
        assert(rest.skip(1) =~= chars@.skip(i as int + 1));
        if !control(c) {
            let w = char_width(c);
            if used + w > MAX_SENSOR_LABEL_BYTES {
                assert(before + Seq::<char>::empty() =~= before);
                break;
            }
            out.push(c);
            assert(before + clipped(rest, MAX_SENSOR_LABEL_BYTES - used) =~= out@ + clipped(
                rest.skip(1),
                MAX_SENSOR_LABEL_BYTES - used - w,
            ));
            used = used + w;
        }
        i = i + 1;
        if i == chars.len() {
            assert(chars@.skip(i as int) =~= Seq::<char>::empty());
            assert(out@ + Seq::<char>::empty() =~= out@);
        }
    }
    if out.len() == 0 {
        fallback.to_string()
    } else {
        string_of(&out)
    }
}

proof fn lemma_clipped(s: Seq<char>, room: int)
    requires
        room >= 0,
    ensures
        encode_utf8(clipped(s, room)).len() <= room,
        forall|i: int|
            0 <= i < clipped(s, room).len() ==> clean_char(#[trigger] clipped(s, room)[i]),
    decreases s.len(),
{
    if s.len() > 0 {
        if is_control(s[0]) {
            lemma_clipped(s.skip(1), room);
        } else if width(s[0]) <= room {
            let rest = clipped(s.skip(1), room - width(s[0]));
            lemma_clipped(s.skip(1), room - width(s[0]));
            crate::encoding::lemma_encode_concat(seq![s[0]], rest);
            lemma_encode_push(Seq::empty(), s[0]);
            assert(Seq::<char>::empty().push(s[0]) =~= seq![s[0]]);
            assert(encode_utf8(Seq::<char>::empty()).len() == 0);
            assert forall|i: int| 0 <= i < clipped(s, room).len() implies clean_char(
                #[trigger] clipped(s, room)[i],
            ) by {
                if i > 0 {
                    assert(clipped(s, room)[i] == rest[i - 1]);
                }
            }
        }
    }
}

/// Whatever a template and the devices behind it say, the label that comes out
/// may stand in a schema, given that the fallback may.
pub proof fn law_normalized_label_is_valid(label: Seq<char>, fallback: Seq<char>)
    requires
        valid_text(fallback, MAX_SENSOR_LABEL_BYTES as int),
    ensures
        valid_text(normalized_label(label, fallback), MAX_SENSOR_LABEL_BYTES as int),
{
    let kept = clipped(trimmed(label), MAX_SENSOR_LABEL_BYTES as int);
    lemma_clipped(trimmed(label), MAX_SENSOR_LABEL_BYTES as int);
    lemma_encode_clean(kept);
    lemma_encode_empty(kept);
    if kept.len() > 0 {
        let bytes = encode_utf8(kept);
        assert forall|i: int| 0 <= i < bytes.len() implies #[trigger] bytes[i] >= 0x20 && bytes[i]
            != 0x7f by {
            assert(crate::encoding::clean_byte(bytes[i]));
        }
    }
}

// ── Device names ─────────────────────────────────────────────────────────────

/// A character that may stand in a device name; an underscore for any other.
pub open spec fn name_char(c: char) -> char {
    if is_alphanumeric(c) || c == '_' {
        c
    } else {
        '_'
    }
}

/// A text made a device name: at most 31 characters, each of which may stand
/// in one.
pub open spec fn sanitized_name(s: Seq<char>) -> Seq<char> {
    s.take(
        if s.len() < MAX_HWMON_NAME_BYTES {
            s.len() as int
        } else {
            MAX_HWMON_NAME_BYTES as int
        },
    ).map_values(|c: char| name_char(c))
}

/// The device name that an agent asks for: none where there is no template or
/// the template comes to nothing.
pub open spec fn rendered_hwmon_name(
    template: Option<Seq<char>>,
    hostname: Seq<char>,
    agent_version: Seq<char>,
) -> Option<Seq<char>> {
    match template {
        None => None,
        Some(template) => {
            let rendered = replaced(
                replaced(template, "{hostname}"@, hostname),
                "{agent_version}"@,
                agent_version,
            );
            if rendered.len() == 0 {
                None
            } else {
                Some(sanitized_name(rendered))
            }
        },
    }
}

/// The device name that an agent asks for.
pub fn render_hwmon_name(
    template: &Option<String>,
    hostname: &str,
    agent_version: &str,
) -> (name: Option<String>)
    ensures
        optional_text(name) == rendered_hwmon_name(
            optional_text(*template),
            hostname@,
            agent_version@,
        ),
{
    let template = match template {
        Some(template) => template,
        None => {
            return None;
        },
    };
    proof {
        reveal_strlit("{hostname}");
        reveal_strlit("{agent_version}");
    }
    let rendered = replace(template, "{hostname}", hostname);
    let rendered = replace(&rendered, "{agent_version}", agent_version);
    let chars = chars_of(&rendered);
    let n: usize = if chars.len() < MAX_HWMON_NAME_BYTES {
        chars.len()
    } else {
        MAX_HWMON_NAME_BYTES
    };
    let mut out: Vec<char> = Vec::new();
    for i in 0..n
        invariant
            n <= chars@.len(),
            out@ == chars@.take(i as int).map_values(|c: char| name_char(c)),
    {
        let c = chars[i];
        if alphanumeric(c) || c == '_' {
            out.push(c);
        } else {
            out.push('_');
        }
        assert(out@ =~= chars@.take(i as int + 1).map_values(|c: char| name_char(c)));
    }
    if out.len() == 0 {
        return None;
    }
    Some(string_of(&out))
}

/// A device name that an agent asks for is one that the host accepts.
pub proof fn law_rendered_hwmon_name_is_valid(
    template: Option<Seq<char>>,
    hostname: Seq<char>,
    agent_version: Seq<char>,
)
    ensures
        rendered_hwmon_name(template, hostname, agent_version) matches Some(name)
            ==> valid_hwmon_name(name),
{
    if let Some(name) = rendered_hwmon_name(template, hostname, agent_version) {
        assert forall|i: int| 0 <= i < name.len() implies (#[trigger] name[i]) as u32 <= 0x7f by {
            assert(is_alphanumeric(name[i]) || name[i] == '_');
        }
        lemma_encode_ascii(name);
        let bytes = encode_utf8(name);
        assert forall|i: int| 0 <= i < bytes.len() implies crate::protocol::name_byte(
            #[trigger] bytes[i],
        ) by {
            assert(bytes[i] == name[i] as u32);
            assert(is_alphanumeric(name[i]) || name[i] == '_');
        }
    }
}

// ── What is kept ─────────────────────────────────────────────────────────────

/// A label is what a template came to, without the white space around it and
/// without control characters, up to the last character that fits in 128 bytes.
/// So a clean label that fits stays as it is, and the fallback shows only where
/// nothing is left.
pub proof fn law_label_is_kept(label: Seq<char>, fallback: Seq<char>)
    ensures
        ({
            let clean = trimmed(label).filter(|c: char| !is_control(c));
            let kept = normalized_label(label, fallback);
            if clean.len() == 0 {
                kept == fallback
            } else {
                &&& 0 < kept.len() <= clean.len()
                &&& kept == clean.take(kept.len() as int)
                &&& encode_utf8(kept).len() <= 128
                &&& kept.len() < clean.len() ==> encode_utf8(
                    clean.take(kept.len() as int + 1),
                ).len() > 128
                &&& encode_utf8(clean).len() <= 128 ==> kept == clean
            }
        }),
{
    let s = trimmed(label);
    let clean = s.filter(|c: char| !is_control(c));
    lemma_clipped_is_start(s, 128);
    let kept = clipped(s, 128);
    if clean.len() > 0 && kept.len() == 0 {
        lemma_encode_push(Seq::empty(), clean[0]);
        assert(clean.take(1) =~= Seq::<char>::empty().push(clean[0]));
        assert(encode_utf8(Seq::<char>::empty()).len() == 0);
    }
    if kept.len() < clean.len() {
        let n = kept.len() as int + 1;
        crate::encoding::lemma_encode_concat(clean.take(n), clean.skip(n));
        assert(clean.take(n) + clean.skip(n) =~= clean);
    } else {
        assert(clean.take(kept.len() as int) =~= clean);
    }
}

proof fn lemma_clipped_is_start(s: Seq<char>, room: int)
    requires
        room >= 0,
    ensures
        ({
            let clean = s.filter(|c: char| !is_control(c));
            let kept = clipped(s, room);
            &&& kept.len() <= clean.len()
            &&& kept == clean.take(kept.len() as int)
            &&& encode_utf8(kept).len() <= room
            &&& kept.len() < clean.len() ==> encode_utf8(clean.take(kept.len() as int + 1)).len()
                > room
        }),
    decreases s.len(),
{
    let keeps = |c: char| !is_control(c);
    let clean = s.filter(keeps);
    let kept = clipped(s, room);
    lemma_clipped(s, room);
    if s.len() == 0 {
        reveal(Seq::filter);
        assert(clean =~= Seq::<char>::empty());
        assert(kept =~= clean.take(0));
    } else {
        let rest = s.skip(1);
        lemma_filter_first(s, keeps);
        if is_control(s[0]) {
            lemma_clipped_is_start(rest, room);
        } else if width(s[0]) > room {
            assert(kept =~= clean.take(0));
            assert(clean.take(1) =~= Seq::<char>::empty().push(s[0]));
            lemma_encode_push(Seq::empty(), s[0]);
        } else {
            let less = room - width(s[0]);
            lemma_clipped_is_start(rest, less);
            let behind = rest.filter(keeps);
            let tail = clipped(rest, less);
            assert(clean == seq![s[0]] + behind);
            assert(kept =~= clean.take(kept.len() as int));
            lemma_encode_push(Seq::empty(), s[0]);
            assert(Seq::<char>::empty().push(s[0]) =~= seq![s[0]]);
            assert(encode_utf8(Seq::<char>::empty()).len() == 0);
            if kept.len() < clean.len() {
                let n = tail.len() as int + 1;
                crate::encoding::lemma_encode_concat(seq![s[0]], behind.take(n));
                assert(clean.take(n + 1) =~= seq![s[0]] + behind.take(n));
            }
        }
    }
}

/// The name of a device is what a template came to, up to 31 characters, with
/// an underscore for each character that is no ASCII letter, digit or underscore;
/// so a name that may be used stays as it is. Both placeholders are filled in.
pub proof fn law_name_is_kept(
    template: Seq<char>,
    hostname: Seq<char>,
    agent_version: Seq<char>,
    i: int,
)
    ensures
        rendered_hwmon_name(None, hostname, agent_version) is None,
        ({
            let whole = replaced(
                replaced(template, "{hostname}"@, hostname),
                "{agent_version}"@,
                agent_version,
            );
            match rendered_hwmon_name(Some(template), hostname, agent_version) {
                None => whole.len() == 0,
                Some(name) => {
                    &&& name.len() == (if whole.len() < 31 {
                        whole.len() as int
                    } else {
                        31
                    })
                    &&& 0 < name.len()
                    &&& 0 <= i < name.len() ==> {
                        let c = whole[i];
                        if '0' <= c <= '9' || 'A' <= c <= 'Z' || 'a' <= c <= 'z' || c == '_' {
                            name[i] == whole[i]
                        } else {
                            name[i] == '_'
                        }
                    }
                },
            }
        }),
{
}

} // verus!
