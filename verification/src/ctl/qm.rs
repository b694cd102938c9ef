//! The QEMU arguments of a VM: adding the channel of the bridge, and taking it
//! out again.

use crate::number::{at_most, parse_u32, parsed_nat};
use crate::text::{
    chars_of, concat, concat3, is_digit, is_white, join, joined, lines, non_empty, pieces, same,
    split, split_lines, split_words, string_of, strip_prefix, texts, trim, trimmed, trimmed_end,
    trimmed_start, views, without_prefix, words, Separator,
};
use vstd::prelude::*;

verus! {

// ── The channel ──────────────────────────────────────────────────────────────

/// Where the socket of a VM is.
pub open spec fn socket_path(vmid: Seq<char>) -> Seq<char> {
    "/run/vfio-sensor-bridge/vm-"@ + vmid + ".sock"@
}

/// The arguments of the channel of a VM, one by one.
pub open spec fn channel_tokens(vmid: Seq<char>) -> Seq<Seq<char>> {
    seq![
        "-chardev"@,
        "socket,id=vsb0,path="@ + socket_path(vmid) + ",server=on,wait=off"@,
        "-device"@,
        "virtio-serial-pci,id=vsbserial0"@,
        "-device"@,
        "virtserialport,chardev=vsb0,name=org.vfio_sensor_bridge.0"@,
    ]
}

/// The arguments of the channel of a VM.
pub fn channel_args(vmid: &str) -> (args: String)
    ensures
        args@ == joined(channel_tokens(vmid@), " "@),
{
    let path = concat3("/run/vfio-sensor-bridge/vm-", vmid, ".sock");
    let mut tokens: Vec<String> = Vec::new();
    tokens.push("-chardev".to_string());
    tokens.push(concat3("socket,id=vsb0,path=", &path, ",server=on,wait=off"));
    tokens.push("-device".to_string());
    tokens.push("virtio-serial-pci,id=vsbserial0".to_string());
    tokens.push("-device".to_string());
    tokens.push("virtserialport,chardev=vsb0,name=org.vfio_sensor_bridge.0".to_string());
    assert(texts(tokens@) =~= channel_tokens(vmid@));
    join(&tokens, " ")
}

/// The parts of an argument: what it is, and its options.
pub open spec fn parts_of(value: Seq<char>) -> Seq<Seq<char>> {
    pieces(value, Separator::Char(','))
}

/// Whether `option` is one of the options of an argument, as a whole.
pub open spec fn has_option(parts: Seq<Seq<char>>, option: Seq<char>) -> bool {
    exists|i: int| 0 < i < parts.len() && #[trigger] parts[i] == option
}

fn split_parts(value: &str) -> (parts: Vec<String>)
    ensures
        texts(parts@) == parts_of(value@),
        parts@.len() > 0,
{
    let chars = chars_of(value);
    let all = split(&chars, Separator::Char(','));
    let mut parts: Vec<String> = Vec::new();
    for i in 0..all.len()
        invariant
            texts(parts@) == views(all@).take(i as int),
            parts@.len() == i,
    {
        let ghost before = texts(parts@);
        parts.push(string_of(&all[i]));
        assert(texts(parts@) =~= before.push(all@[i as int]@));
        assert(texts(parts@) =~= views(all@).take(i as int + 1));
    }
    assert(views(all@).take(all@.len() as int) =~= views(all@));
    parts
}

fn lists_option(parts: &[String], option: &str) -> (yes: bool)
    requires
        parts@.len() > 0,
    ensures
        yes == has_option(texts(parts@), option@),
{
    let ghost all = texts(parts@);
    for i in 1..parts.len()
        invariant
            all == texts(parts@),
            forall|j: int| 0 < j < i ==> #[trigger] all[j] != option@,
    {
        assert(all[i as int] == parts@[i as int]@);
        if same(&parts[i], option) {
            return true;
        }
    }
    false
}

/// Whether an argument is a device of the bridge: its port or its controller.
pub open spec fn is_bridge_device(value: Seq<char>) -> bool {
    let parts = parts_of(value);
    ||| parts[0] == "virtserialport"@ && has_option(parts, "name=org.vfio_sensor_bridge.0"@)
    ||| parts[0] == "virtio-serial-pci"@ && has_option(parts, "id=vsbserial0"@)
}

/// Whether an argument is a device of the bridge.
pub fn is_bridge_device_arg(value: &str) -> (yes: bool)
    ensures
        yes == is_bridge_device(value@),
{
    let parts = split_parts(value);
    assert(texts(parts@)[0] == parts@[0]@);
    (same(&parts[0], "virtserialport") && lists_option(&parts, "name=org.vfio_sensor_bridge.0"))
        || (same(&parts[0], "virtio-serial-pci") && lists_option(&parts, "id=vsbserial0"))
}

/// Whether two arguments, one behind the other, belong to the channel of a VM.
pub open spec fn bridge_pair(kind: Seq<char>, value: Seq<char>, vmid: Seq<char>) -> bool {
    let parts = parts_of(value);
    ||| kind == "-chardev"@ && parts[0] == "socket"@ && has_option(parts, "id=vsb0"@)
        && has_option(parts, "path="@ + socket_path(vmid))
    ||| kind == "-device"@ && is_bridge_device(value)
}

/// Whether two arguments, one behind the other, belong to the channel of a VM.
pub fn is_bridge_pair(kind: &str, value: &str, vmid: &str) -> (yes: bool)
    ensures
        yes == bridge_pair(kind@, value@, vmid@),
{
    if same(kind, "-chardev") {
        let path = concat3("/run/vfio-sensor-bridge/vm-", vmid, ".sock");
        proof {
            reveal_strlit("-chardev");
            reveal_strlit("-device");
            assert("-chardev"@.len() != "-device"@.len());
        }
        let parts = split_parts(value);
        assert(texts(parts@)[0] == parts@[0]@);
        same(&parts[0], "socket") && lists_option(&parts, "id=vsb0") && lists_option(
            &parts,
            &concat("path=", &path),
        )
    } else if same(kind, "-device") {
        is_bridge_device_arg(value)
    } else {
        false
    }
}

/// Whether some arguments hold a device of the bridge.
pub open spec fn has_channel(tokens: Seq<Seq<char>>) -> bool {
    exists|i: int| 0 <= i < tokens.len() && is_bridge_device(#[trigger] tokens[i])
}

/// Whether arguments hold a device of the bridge.
pub fn has_bridge_channel(args: &str) -> (yes: bool)
    ensures
        yes == has_channel(words(args@)),
{
    let tokens = split_words(args);
    let ghost all = texts(tokens@);
    for i in 0..tokens.len()
        invariant
            all == texts(tokens@),
            all == words(args@),
            forall|j: int| 0 <= j < i ==> !is_bridge_device(#[trigger] all[j]),
    {
        assert(all[i as int] == tokens@[i as int]@);
        if is_bridge_device_arg(&tokens[i]) {
            return true;
        }
    }
    false
}

/// Arguments with single spaces between them.
pub open spec fn collapsed(args: Seq<char>) -> Seq<char> {
    joined(words(args), " "@)
}

/// Arguments with single spaces between them.
pub fn collapse_spaces(input: &str) -> (args: String)
    ensures
        args@ == collapsed(input@),
{
    join(&split_words(input), " ")
}

/// The arguments that do not belong to the channel of a VM.
pub open spec fn kept_tokens(tokens: Seq<Seq<char>>, vmid: Seq<char>) -> Seq<Seq<char>>
    decreases tokens.len(),
{
    if tokens.len() == 0 {
        Seq::empty()
    } else if tokens.len() >= 2 && bridge_pair(tokens[0], tokens[1], vmid) {
        kept_tokens(tokens.skip(2), vmid)
    } else {
        seq![tokens[0]] + kept_tokens(tokens.skip(1), vmid)
    }
}

/// Arguments without those of the channel of a VM.
pub open spec fn without_channel(args: Seq<char>, vmid: Seq<char>) -> Seq<char> {
    joined(kept_tokens(words(args), vmid), " "@)
}

/// Takes the channel of a VM out of its arguments.
pub fn remove_bridge_channel(args: &str, vmid: &str) -> (left: String)
    ensures
        left@ == without_channel(args@, vmid@),
{
    let tokens = split_words(args);
    let ghost all = texts(tokens@);
    let mut kept: Vec<String> = Vec::new();
    let mut i: usize = 0;
    assert(texts(kept@) + kept_tokens(all.skip(0), vmid@) =~= kept_tokens(all, vmid@)) by {
        assert(all.skip(0) =~= all);
    }
    while i < tokens.len()
        invariant
            i <= tokens@.len(),
            all == texts(tokens@),
            texts(kept@) + kept_tokens(all.skip(i as int), vmid@) == kept_tokens(all, vmid@),
        decreases tokens@.len() - i,
    {
        let ghost rest = all.skip(i as int);
        let ghost before = texts(kept@);
        assert(rest[0] == tokens@[i as int]@);
        if i + 1 < tokens.len() && is_bridge_pair(&tokens[i], &tokens[i + 1], vmid) {
            assert(rest[1] == tokens@[i as int + 1]@);
            assert(rest.skip(2) =~= all.skip(i as int + 2));
            i = i + 2;
        } else {
            if i + 1 < tokens.len() {
                assert(rest[1] == tokens@[i as int + 1]@);
            }
            kept.push(tokens[i].clone());
            assert(texts(kept@) =~= before.push(rest[0]));
            assert(rest.skip(1) =~= all.skip(i as int + 1));
            assert(texts(kept@) + kept_tokens(rest.skip(1), vmid@) =~= before + kept_tokens(
                rest,
                vmid@,
            ));
            i = i + 1;
        }
    }
    assert(texts(kept@) + kept_tokens(all.skip(i as int), vmid@) =~= texts(kept@));
    join(&kept, " ")
}

/// The arguments in what `qm config` printed; none where it shows none.
pub open spec fn printed_args(all: Seq<Seq<char>>) -> Seq<char>
    decreases all.len(),
{
    if all.len() == 0 {
        Seq::empty()
    } else {
        match without_prefix(all[0], "args: "@) {
            Some(args) => args,
            None => printed_args(all.skip(1)),
        }
    }
}

/// The arguments in what `qm config` printed.
pub fn parse_qm_args(stdout: &str) -> (args: String)
    ensures
        args@ == printed_args(lines(stdout@)),
{
    let parts = split_lines(stdout);
    let ghost all = texts(parts@);
    assert(all.skip(0) =~= all);
    for i in 0..parts.len()
        invariant
            all == texts(parts@),
            all == lines(stdout@),
            printed_args(all) == printed_args(all.skip(i as int)),
    {
        assert(all.skip(i as int)[0] == parts@[i as int]@);
        assert(all.skip(i as int).skip(1) =~= all.skip(i as int + 1));
        if let Some(args) = strip_prefix(&parts[i], "args: ") {
            return args;
        }
    }
    let args = String::new();
    assert(args@ =~= Seq::<char>::empty());
    args
}

// ── Plans ────────────────────────────────────────────────────────────────────

/// Whether a text is the number of a VM.
pub open spec fn is_vmid(vmid: Seq<char>) -> bool {
    at_most(parsed_nat(vmid), u32::MAX as nat) is Some
}

/// Whether a text is the number of a VM.
pub fn valid_vmid(vmid: &str) -> (yes: bool)
    ensures
        yes == is_vmid(vmid@),
{
    parse_u32(vmid).is_some()
}

/// What to do about the arguments of a VM.
pub enum ArgsPlan {
    /// Nothing.
    Keep,
    /// Give it these arguments.
    Replace(String),
}

/// The arguments of a VM with its channel.
pub open spec fn with_channel(existing: Seq<char>, vmid: Seq<char>) -> Seq<char> {
    let channel = joined(channel_tokens(vmid), " "@);
    if trimmed(existing).len() == 0 {
        channel
    } else {
        trimmed(existing) + " "@ + channel
    }
}

/// How to attach a VM, where `existing` are its arguments: one that has a
/// channel keeps them.
pub fn attach(vmid: &str, existing: &str) -> (plan: ArgsPlan)
    ensures
        match plan {
            ArgsPlan::Keep => has_channel(words(existing@)),
            ArgsPlan::Replace(args) => !has_channel(words(existing@)) && args@ == with_channel(
                existing@,
                vmid@,
            ),
        },
        planned_args(plan) == attach_args(existing@, vmid@),
{
    if has_bridge_channel(existing) {
        return ArgsPlan::Keep;
    }
    let channel = channel_args(vmid);
    let old = trim(existing);
    if old.as_str().unicode_len() == 0 {
        ArgsPlan::Replace(channel)
    } else {
        ArgsPlan::Replace(concat3(&old, " ", &channel))
    }
}

/// How to detach a VM, where `existing` are its arguments: one without a
/// channel keeps them.
pub fn detach(vmid: &str, existing: &str) -> (plan: ArgsPlan)
    ensures
        match plan {
            ArgsPlan::Keep => without_channel(existing@, vmid@) == collapsed(existing@),
            ArgsPlan::Replace(args) => args@ == without_channel(existing@, vmid@) && args@
                != collapsed(existing@),
        },
        planned_args(plan) == detach_args(existing@, vmid@),
{
    let next = remove_bridge_channel(existing, vmid);
    if same(&collapse_spaces(existing), &next) {
        ArgsPlan::Keep
    } else {
        ArgsPlan::Replace(next)
    }
}

/// The command that gives a VM its arguments.
pub fn set_args_line(vmid: &str, args: &str) -> (line: String)
    ensures
        line@ == "qm set "@ + vmid@ + " --args "@ + args@,
{
    let mut line = concat3("qm set ", vmid, " --args ");
    line.append(args);
    line
}

// ── Words ────────────────────────────────────────────────────────────────────

/// Whether a text is not empty and holds no white space.
pub open spec fn is_word(s: Seq<char>) -> bool {
    s.len() > 0 && forall|i: int| 0 <= i < s.len() ==> !is_white(#[trigger] s[i])
}

proof fn lemma_pieces_nonempty(s: Seq<char>, sep: Separator)
    ensures
        pieces(s, sep).len() >= 1,
    decreases s.len(),
{
    if s.len() > 0 {
        lemma_pieces_nonempty(s.drop_last(), sep);
    }
}

/// The pieces of two texts with a separator between them.
pub proof fn lemma_pieces_joined(a: Seq<char>, w: char, b: Seq<char>, sep: Separator)
    requires
        sep.splits(w),
    ensures
        pieces(a.push(w) + b, sep) == pieces(a, sep) + pieces(b, sep),
    decreases b.len(),
{
    if b.len() == 0 {
        assert(a.push(w) + b =~= a.push(w));
        assert(a.push(w).drop_last() =~= a);
        assert(pieces(a.push(w), sep) =~= pieces(a, sep) + pieces(b, sep));
    } else {
        let whole = a.push(w) + b;
        lemma_pieces_joined(a, w, b.drop_last(), sep);
        lemma_pieces_nonempty(b.drop_last(), sep);
        assert(whole.drop_last() =~= a.push(w) + b.drop_last());
        assert(whole.last() == b.last());
        let p = pieces(a, sep);
        let q = pieces(b.drop_last(), sep);
        assert((p + q).last() == q.last());
        assert((p + q).drop_last() =~= p + q.drop_last());
        assert(pieces(whole, sep) =~= p + pieces(b, sep));
    }
}

proof fn lemma_non_empty_concat(a: Seq<Seq<char>>, b: Seq<Seq<char>>)
    ensures
        non_empty(a + b) == non_empty(a) + non_empty(b),
    decreases b.len(),
{
    if b.len() == 0 {
        assert(a + b =~= a);
        assert(non_empty(a) + non_empty(b) =~= non_empty(a));
    } else {
        lemma_non_empty_concat(a, b.drop_last());
        assert((a + b).drop_last() =~= a + b.drop_last());
        assert(non_empty(a + b) =~= non_empty(a) + non_empty(b));
    }
}

/// The words of two texts with white space between them.
proof fn lemma_words_joined(a: Seq<char>, w: char, b: Seq<char>)
    requires
        is_white(w),
    ensures
        words(a.push(w) + b) == words(a) + words(b),
{
    lemma_pieces_joined(a, w, b, Separator::White);
    lemma_non_empty_concat(pieces(a, Separator::White), pieces(b, Separator::White));
}

proof fn lemma_words_empty()
    ensures
        words(Seq::<char>::empty()) == Seq::<Seq<char>>::empty(),
{
    let parts = pieces(Seq::<char>::empty(), Separator::White);
    assert(parts =~= seq![Seq::<char>::empty()]);
    assert(parts.drop_last() =~= Seq::<Seq<char>>::empty());
    reveal_with_fuel(non_empty, 2);
    assert(non_empty(parts) =~= Seq::<Seq<char>>::empty());
}

/// White space around a text adds no words.
proof fn lemma_words_trimmed(s: Seq<char>)
    ensures
        words(trimmed(s)) == words(s),
{
    lemma_words_trimmed_start(s);
    lemma_words_trimmed_end(trimmed_start(s));
}

proof fn lemma_words_trimmed_start(s: Seq<char>)
    ensures
        words(trimmed_start(s)) == words(s),
    decreases s.len(),
{
    if s.len() > 0 && is_white(s[0]) {
        lemma_words_trimmed_start(s.skip(1));
        lemma_words_joined(Seq::empty(), s[0], s.skip(1));
        lemma_words_empty();
        assert(Seq::<char>::empty().push(s[0]) + s.skip(1) =~= s);
        assert(words(Seq::<char>::empty()) + words(s.skip(1)) =~= words(s.skip(1)));
    }
}

proof fn lemma_words_trimmed_end(s: Seq<char>)
    ensures
        words(trimmed_end(s)) == words(s),
    decreases s.len(),
{
    if s.len() > 0 && is_white(s.last()) {
        lemma_words_trimmed_end(s.drop_last());
        lemma_words_joined(s.drop_last(), s.last(), Seq::empty());
        lemma_words_empty();
        assert(s.drop_last().push(s.last()) + Seq::<char>::empty() =~= s);
        assert(words(s.drop_last()) + words(Seq::<char>::empty()) =~= words(s.drop_last()));
    }
}

/// Whether no separator stands in a text.
pub open spec fn unsplit(s: Seq<char>, sep: Separator) -> bool {
    forall|i: int| 0 <= i < s.len() ==> !sep.splits(#[trigger] s[i])
}

/// A text without separators is one piece.
pub proof fn lemma_pieces_unsplit(s: Seq<char>, sep: Separator)
    requires
        unsplit(s, sep),
    ensures
        pieces(s, sep) == seq![s],
    decreases s.len(),
{
    if s.len() > 0 {
        let before = s.drop_last();
        assert forall|i: int| 0 <= i < before.len() implies !sep.splits(#[trigger] before[i]) by {
            assert(before[i] == s[i]);
        }
        lemma_pieces_unsplit(before, sep);
        assert(!sep.splits(s[s.len() - 1]));
        assert(before.push(s.last()) =~= s);
        assert(pieces(s, sep) =~= seq![s]);
    } else {
        assert(pieces(s, sep) =~= seq![s]) by {
            assert(s =~= Seq::<char>::empty());
        }
    }
}

/// A word has itself as its only word.
proof fn lemma_words_word(s: Seq<char>)
    requires
        is_word(s),
    ensures
        words(s) == seq![s],
{
    lemma_pieces_unsplit(s, Separator::White);
    let parts = seq![s];
    assert(parts.drop_last() =~= Seq::<Seq<char>>::empty());
    reveal_with_fuel(non_empty, 2);
    assert(non_empty(parts) =~= seq![s]);
}

/// Joining words with spaces and splitting gives the words back.
pub proof fn law_joined_words(tokens: Seq<Seq<char>>)
    requires
        forall|i: int| 0 <= i < tokens.len() ==> is_word(#[trigger] tokens[i]),
    ensures
        words(joined(tokens, " "@)) == tokens,
    decreases tokens.len(),
{
    reveal_strlit(" ");
    if tokens.len() == 0 {
        lemma_words_empty();
        assert(joined(tokens, " "@) =~= Seq::<char>::empty());
        assert(tokens =~= Seq::<Seq<char>>::empty());
    } else if tokens.len() == 1 {
        assert(is_word(tokens[0]));
        lemma_words_word(tokens[0]);
        assert(tokens =~= seq![tokens[0]]);
    } else {
        let before = tokens.drop_last();
        assert forall|i: int| 0 <= i < before.len() implies is_word(#[trigger] before[i]) by {
            assert(before[i] == tokens[i]);
        }
        law_joined_words(before);
        assert(is_word(tokens[tokens.len() - 1]));
        lemma_words_word(tokens.last());
        let head = joined(before, " "@);
        lemma_words_joined(head, ' ', tokens.last());
        assert(head + " "@ + tokens.last() =~= head.push(' ') + tokens.last());
        assert(before + seq![tokens.last()] =~= tokens);
    }
}

// ── Options ──────────────────────────────────────────────────────────────────

/// Whether a text holds no comma.
pub open spec fn comma_free(s: Seq<char>) -> bool {
    unsplit(s, Separator::Char(','))
}

/// Joining parts with commas and splitting gives the parts back.
pub proof fn law_joined_parts(parts: Seq<Seq<char>>)
    requires
        parts.len() > 0,
        forall|i: int| 0 <= i < parts.len() ==> comma_free(#[trigger] parts[i]),
    ensures
        parts_of(joined(parts, ","@)) == parts,
    decreases parts.len(),
{
    let sep = Separator::Char(',');
    reveal_strlit(",");
    let last = parts.len() - 1;
    assert(comma_free(parts[last]));
    lemma_pieces_unsplit(parts[last], sep);
    if last == 0 {
        assert(parts =~= seq![parts[0]]);
    } else {
        let before = parts.drop_last();
        assert forall|i: int| 0 <= i < before.len() implies comma_free(#[trigger] before[i]) by {
            assert(before[i] == parts[i]);
        }
        law_joined_parts(before);
        let head = joined(before, ","@);
        lemma_pieces_joined(head, ',', parts.last(), sep);
        assert(head + ","@ + parts.last() =~= head.push(',') + parts.last());
        assert(before + seq![parts.last()] =~= parts);
    }
}

proof fn lemma_joined_one(a: Seq<char>)
    ensures
        joined(seq![a], ","@) == a,
{
}

proof fn lemma_joined_more(parts: Seq<Seq<char>>, next: Seq<char>)
    requires
        parts.len() > 0,
    ensures
        joined(parts.push(next), ","@) == joined(parts, ","@) + ","@ + next,
{
    assert(parts.push(next).drop_last() =~= parts);
}

/// A device stays unless one of its options is, as a whole, the identifier of
/// the controller or the name of the port that belong to a channel.
pub proof fn law_other_devices_stay(parts: Seq<Seq<char>>, vmid: Seq<char>)
    requires
        parts.len() > 0,
        forall|i: int| 0 <= i < parts.len() ==> comma_free(#[trigger] parts[i]),
        forall|i: int|
            0 < i < parts.len() ==> #[trigger] parts[i] != "id=vsbserial0"@ && parts[i]
                != "name=org.vfio_sensor_bridge.0"@,
    ensures
        kept_tokens(seq!["-device"@, joined(parts, ","@)], vmid) == seq![
            "-device"@,
            joined(parts, ","@),
        ],
{
    law_joined_parts(parts);
    let tokens = seq!["-device"@, joined(parts, ","@)];
    lemma_flag_names();
    assert(!bridge_pair(tokens[0], tokens[1], vmid));
    assert(free_of_channel(tokens, vmid));
    law_other_args_stay(tokens, vmid);
}

/// A controller with another identifier than that of the channel stays, however
/// alike the two are.
pub proof fn law_other_controllers_stay(id: Seq<char>, vmid: Seq<char>)
    requires
        comma_free(id),
        id != "vsbserial0"@,
    ensures
        kept_tokens(seq!["-device"@, "virtio-serial-pci,id="@ + id], vmid) == seq![
            "-device"@,
            "virtio-serial-pci,id="@ + id,
        ],
{
    reveal_strlit("virtio-serial-pci,id=");
    reveal_strlit("virtio-serial-pci");
    reveal_strlit("id=");
    reveal_strlit("id=vsbserial0");
    reveal_strlit("vsbserial0");
    reveal_strlit("name=org.vfio_sensor_bridge.0");
    reveal_strlit(",");
    let option = "id="@ + id;
    let first = seq!["virtio-serial-pci"@];
    let parts = first.push(option);
    assert forall|i: int| 0 <= i < parts.len() implies comma_free(#[trigger] parts[i]) by {
        if i == 1 {
            assert forall|k: int| 0 <= k < option.len() implies #[trigger] option[k] != ',' by {
                if k >= 3 {
                    assert(option[k] == id[k - 3]);
                }
            }
        }
    }
    assert(option != "id=vsbserial0"@) by {
        if option == "id=vsbserial0"@ {
            assert(id =~= option.skip(3));
            assert("id=vsbserial0"@.skip(3) =~= "vsbserial0"@);
        }
    }
    assert(option[0] != "name=org.vfio_sensor_bridge.0"@[0]);
    lemma_joined_one("virtio-serial-pci"@);
    lemma_joined_more(first, option);
    assert("virtio-serial-pci"@ + ","@ + option =~= "virtio-serial-pci,id="@ + id);
    law_other_devices_stay(parts, vmid);
}

proof fn lemma_flag_names()
    ensures
        "-chardev"@ != "-device"@,
{
    reveal_strlit("-chardev");
    reveal_strlit("-device");
    assert("-chardev"@.len() != "-device"@.len());
}

// ── Laws ─────────────────────────────────────────────────────────────────────

proof fn lemma_digits(s: Seq<char>)
    requires
        crate::number::digits_value(s) is Some,
    ensures
        forall|i: int| 0 <= i < s.len() ==> is_digit(#[trigger] s[i]),
    decreases s.len(),
{
    if s.len() > 0 {
        lemma_digits(s.drop_last());
        assert forall|i: int| 0 <= i < s.len() implies is_digit(#[trigger] s[i]) by {
            if i < s.len() - 1 {
                assert(s.drop_last()[i] == s[i]);
            }
        }
    }
}

/// The number of a VM holds neither white space nor commas.
proof fn lemma_vmid_is_word(vmid: Seq<char>)
    requires
        is_vmid(vmid),
    ensures
        is_word(vmid),
        comma_free(vmid),
{
    if vmid[0] == '+' {
        let rest = vmid.skip(1);
        lemma_digits(rest);
        assert forall|i: int| 0 <= i < vmid.len() implies !is_white(#[trigger] vmid[i]) by {
            if i > 0 {
                assert(rest[i - 1] == vmid[i]);
            }
        }
        assert forall|i: int| 0 <= i < vmid.len() implies #[trigger] vmid[i] != ',' by {
            if i > 0 {
                assert(rest[i - 1] == vmid[i]);
            }
        }
    } else {
        lemma_digits(vmid);
        assert forall|i: int| 0 <= i < vmid.len() implies !is_white(#[trigger] vmid[i]) by {
            assert(is_digit(vmid[i]));
        }
    }
}

proof fn lemma_word_concat(a: Seq<char>, b: Seq<char>)
    requires
        is_word(a),
        is_word(b),
    ensures
        is_word(a + b),
{
    assert forall|i: int| 0 <= i < (a + b).len() implies !is_white(#[trigger] (a + b)[i]) by {
        if i < a.len() {
            assert((a + b)[i] == a[i]);
        } else {
            assert((a + b)[i] == b[i - a.len()]);
        }
    }
}

proof fn lemma_channel_literals()
    ensures
        is_word("-chardev"@),
        is_word("-device"@),
        is_word("socket,id=vsb0,path="@),
        is_word("/run/vfio-sensor-bridge/vm-"@),
        is_word(".sock"@),
        is_word(",server=on,wait=off"@),
        is_word("virtio-serial-pci,id=vsbserial0"@),
        is_word("virtserialport,chardev=vsb0,name=org.vfio_sensor_bridge.0"@),
{
    reveal_strlit("-chardev");
    reveal_strlit("-device");
    reveal_strlit("socket,id=vsb0,path=");
    reveal_strlit("/run/vfio-sensor-bridge/vm-");
    reveal_strlit(".sock");
    reveal_strlit(",server=on,wait=off");
    reveal_strlit("virtio-serial-pci,id=vsbserial0");
    reveal_strlit("virtserialport,chardev=vsb0,name=org.vfio_sensor_bridge.0");
}

proof fn lemma_channel_words(vmid: Seq<char>)
    requires
        is_vmid(vmid),
    ensures
        forall|i: int| 0 <= i < 6 ==> is_word(#[trigger] channel_tokens(vmid)[i]),
{
    lemma_channel_literals();
    lemma_vmid_is_word(vmid);
    lemma_word_concat("/run/vfio-sensor-bridge/vm-"@, vmid);
    lemma_word_concat("/run/vfio-sensor-bridge/vm-"@ + vmid, ".sock"@);
    lemma_word_concat("socket,id=vsb0,path="@, socket_path(vmid));
    lemma_word_concat("socket,id=vsb0,path="@ + socket_path(vmid), ",server=on,wait=off"@);
}

/// The words of the arguments of an attached VM.
proof fn lemma_attached_words(existing: Seq<char>, vmid: Seq<char>)
    requires
        is_vmid(vmid),
    ensures
        words(with_channel(existing, vmid)) == words(existing) + channel_tokens(vmid),
{
    let tokens = channel_tokens(vmid);
    let channel = joined(tokens, " "@);
    lemma_channel_words(vmid);
    law_joined_words(tokens);
    lemma_words_trimmed(existing);
    if trimmed(existing).len() == 0 {
        lemma_words_empty();
        assert(trimmed(existing) =~= Seq::<char>::empty());
        assert(words(existing) + tokens =~= tokens);
    } else {
        reveal_strlit(" ");
        lemma_words_joined(trimmed(existing), ' ', channel);
        assert(trimmed(existing) + " "@ + channel =~= trimmed(existing).push(' ') + channel);
    }
}

proof fn lemma_devices()
    ensures
        is_bridge_device("virtio-serial-pci,id=vsbserial0"@),
        is_bridge_device("virtserialport,chardev=vsb0,name=org.vfio_sensor_bridge.0"@),
{
    reveal_strlit(",");
    reveal_strlit("virtio-serial-pci,id=vsbserial0");
    reveal_strlit("virtio-serial-pci");
    reveal_strlit("id=vsbserial0");
    reveal_strlit("virtserialport,chardev=vsb0,name=org.vfio_sensor_bridge.0");
    reveal_strlit("virtserialport");
    reveal_strlit("chardev=vsb0");
    reveal_strlit("name=org.vfio_sensor_bridge.0");
    let a = seq!["virtio-serial-pci"@];
    let controller = a.push("id=vsbserial0"@);
    lemma_joined_one("virtio-serial-pci"@);
    lemma_joined_more(a, "id=vsbserial0"@);
    assert(joined(controller, ","@) =~= "virtio-serial-pci,id=vsbserial0"@);
    law_joined_parts(controller);
    assert(controller[1] == "id=vsbserial0"@);
    let b = seq!["virtserialport"@];
    let c = b.push("chardev=vsb0"@);
    let port = c.push("name=org.vfio_sensor_bridge.0"@);
    lemma_joined_one("virtserialport"@);
    lemma_joined_more(b, "chardev=vsb0"@);
    lemma_joined_more(c, "name=org.vfio_sensor_bridge.0"@);
    assert(joined(port, ","@) =~= "virtserialport,chardev=vsb0,name=org.vfio_sensor_bridge.0"@);
    law_joined_parts(port);
    assert(port[2] == "name=org.vfio_sensor_bridge.0"@);
}

proof fn lemma_chardev(vmid: Seq<char>)
    requires
        is_vmid(vmid),
    ensures
        bridge_pair(
            "-chardev"@,
            "socket,id=vsb0,path="@ + socket_path(vmid) + ",server=on,wait=off"@,
            vmid,
        ),
{
    reveal_strlit(",");
    reveal_strlit("socket,id=vsb0,path=");
    reveal_strlit("socket");
    reveal_strlit("id=vsb0");
    reveal_strlit("path=");
    reveal_strlit("/run/vfio-sensor-bridge/vm-");
    reveal_strlit(".sock");
    reveal_strlit(",server=on,wait=off");
    reveal_strlit("server=on");
    reveal_strlit("wait=off");
    lemma_vmid_is_word(vmid);
    let sp = socket_path(vmid);
    let path = "path="@ + sp;
    let run = "/run/vfio-sensor-bridge/vm-"@;
    assert forall|k: int| 0 <= k < path.len() implies #[trigger] path[k] != ',' by {
        if k < 5 {
            assert(path[k] == "path="@[k]);
        } else if k < 5 + run.len() {
            assert(path[k] == run[k - 5]);
        } else if k < 5 + run.len() + vmid.len() {
            assert(path[k] == vmid[k - 5 - run.len()]);
        } else {
            assert(path[k] == ".sock"@[k - 5 - run.len() - vmid.len()]);
        }
    }
    assert(comma_free(path));
    let a = seq!["socket"@];
    let b = a.push("id=vsb0"@);
    let c = b.push(path);
    let d = c.push("server=on"@);
    let parts = d.push("wait=off"@);
    lemma_joined_one("socket"@);
    lemma_joined_more(a, "id=vsb0"@);
    lemma_joined_more(b, path);
    lemma_joined_more(c, "server=on"@);
    lemma_joined_more(d, "wait=off"@);
    assert(joined(parts, ","@) =~= "socket,id=vsb0,path="@ + sp + ",server=on,wait=off"@);
    law_joined_parts(parts);
    assert(parts[1] == "id=vsb0"@);
    assert(parts[2] == path);
}

/// A VM that was attached has a channel, so that attaching it again changes
/// nothing.
pub proof fn law_attached_has_channel(existing: Seq<char>, vmid: Seq<char>)
    requires
        is_vmid(vmid),
    ensures
        has_channel(words(with_channel(existing, vmid))),
{
    lemma_attached_words(existing, vmid);
    lemma_devices();
    let all = words(existing) + channel_tokens(vmid);
    assert(all[words(existing).len() as int + 3] == channel_tokens(vmid)[3]);
}

proof fn lemma_kept_concat(tokens: Seq<Seq<char>>, vmid: Seq<char>)
    ensures
        kept_tokens(tokens + channel_tokens(vmid), vmid) == kept_tokens(tokens, vmid)
            + kept_tokens(channel_tokens(vmid), vmid),
    decreases tokens.len(),
{
    let channel = channel_tokens(vmid);
    let all = tokens + channel;
    if tokens.len() == 0 {
        assert(all =~= channel);
        assert(kept_tokens(tokens, vmid) + kept_tokens(channel, vmid) =~= kept_tokens(
            channel,
            vmid,
        ));
    } else {
        assert(all[0] == tokens[0]);
        if tokens.len() >= 2 {
            assert(all[1] == tokens[1]);
        } else {
            assert(all[1] == channel[0]);
            reveal_strlit("-chardev");
            lemma_pieces_unsplit("-chardev"@, Separator::Char(','));
            assert(!bridge_pair(all[0], all[1], vmid));
        }
        if tokens.len() >= 2 && bridge_pair(tokens[0], tokens[1], vmid) {
            lemma_kept_concat(tokens.skip(2), vmid);
            assert(all.skip(2) =~= tokens.skip(2) + channel);
        } else {
            lemma_kept_concat(tokens.skip(1), vmid);
            assert(all.skip(1) =~= tokens.skip(1) + channel);
            assert(seq![tokens[0]] + (kept_tokens(tokens.skip(1), vmid) + kept_tokens(
                channel,
                vmid,
            )) =~= (seq![tokens[0]] + kept_tokens(tokens.skip(1), vmid)) + kept_tokens(
                channel,
                vmid,
            ));
        }
    }
}

proof fn lemma_channel_removed(vmid: Seq<char>)
    requires
        is_vmid(vmid),
    ensures
        kept_tokens(channel_tokens(vmid), vmid) == Seq::<Seq<char>>::empty(),
{
    lemma_devices();
    lemma_chardev(vmid);
    let c = channel_tokens(vmid);
    let c2 = c.skip(2);
    let c4 = c2.skip(2);
    assert(c2[0] == c[2] && c2[1] == c[3]);
    assert(c4[0] == c[4] && c4[1] == c[5]);
    assert(bridge_pair(c[0], c[1], vmid));
    assert(bridge_pair(c2[0], c2[1], vmid));
    assert(bridge_pair(c4[0], c4[1], vmid));
    assert(c4.skip(2) =~= Seq::<Seq<char>>::empty());
    assert(kept_tokens(c4, vmid) == kept_tokens(c4.skip(2), vmid));
    assert(kept_tokens(c2, vmid) == kept_tokens(c4, vmid));
    assert(kept_tokens(c, vmid) == kept_tokens(c2, vmid));
}

/// Detaching undoes attaching: what is left is what detaching would have left
/// in the first place.
pub proof fn law_detach_undoes_attach(existing: Seq<char>, vmid: Seq<char>)
    requires
        is_vmid(vmid),
    ensures
        without_channel(with_channel(existing, vmid), vmid) == without_channel(existing, vmid),
{
    lemma_attached_words(existing, vmid);
    lemma_kept_concat(words(existing), vmid);
    lemma_channel_removed(vmid);
    assert(kept_tokens(words(existing), vmid) + Seq::<Seq<char>>::empty() =~= kept_tokens(
        words(existing),
        vmid,
    ));
}

/// Whether no two arguments, one behind the other, belong to the channel of a
/// VM.
pub open spec fn free_of_channel(tokens: Seq<Seq<char>>, vmid: Seq<char>) -> bool {
    forall|i: int, j: int|
        0 <= i && j == i + 1 && j < tokens.len() ==> !bridge_pair(
            #[trigger] tokens[i],
            #[trigger] tokens[j],
            vmid,
        )
}

/// Arguments that are none of the channel stay, all of them and in order.
pub proof fn law_other_args_stay(tokens: Seq<Seq<char>>, vmid: Seq<char>)
    requires
        free_of_channel(tokens, vmid),
    ensures
        kept_tokens(tokens, vmid) == tokens,
    decreases tokens.len(),
{
    if tokens.len() > 0 {
        let rest = tokens.skip(1);
        if tokens.len() >= 2 {
            assert(!bridge_pair(tokens[0], tokens[1], vmid));
        }
        assert forall|i: int, j: int|
            0 <= i && j == i + 1 && j < rest.len() implies !bridge_pair(
            #[trigger] rest[i],
            #[trigger] rest[j],
            vmid,
        ) by {
            assert(rest[i] == tokens[i + 1]);
            assert(rest[j] == tokens[j + 1]);
        }
        law_other_args_stay(rest, vmid);
        assert(seq![tokens[0]] + rest =~= tokens);
    }
}

/// A character device stays unless it is a socket that has both the identifier
/// and the path of the channel among its options.
pub proof fn law_other_chardevs_stay(parts: Seq<Seq<char>>, vmid: Seq<char>)
    requires
        parts.len() > 0,
        forall|i: int| 0 <= i < parts.len() ==> comma_free(#[trigger] parts[i]),
        parts[0] != "socket"@ || (forall|i: int|
            0 < i < parts.len() ==> #[trigger] parts[i] != "id=vsb0"@) || (forall|i: int|
            0 < i < parts.len() ==> #[trigger] parts[i] != "path=/run/vfio-sensor-bridge/vm-"@
                + vmid + ".sock"@),
    ensures
        kept_tokens(seq!["-chardev"@, joined(parts, ","@)], vmid) == seq![
            "-chardev"@,
            joined(parts, ","@),
        ],
{
    law_joined_parts(parts);
    let tokens = seq!["-chardev"@, joined(parts, ","@)];
    lemma_flag_names();
    reveal_strlit("path=/run/vfio-sensor-bridge/vm-");
    reveal_strlit("/run/vfio-sensor-bridge/vm-");
    reveal_strlit("path=");
    assert("path=/run/vfio-sensor-bridge/vm-"@ + vmid + ".sock"@ =~= "path="@ + socket_path(vmid));
    assert(!bridge_pair(tokens[0], tokens[1], vmid));
    assert(free_of_channel(tokens, vmid));
    law_other_args_stay(tokens, vmid);
}

/// A channel is taken out wherever it stands, and what is before it and behind it
/// stays as it was.
pub proof fn law_channel_is_taken_out(
    before: Seq<Seq<char>>,
    behind: Seq<Seq<char>>,
    vmid: Seq<char>,
)
    requires
        is_vmid(vmid),
        free_of_channel(before, vmid),
        free_of_channel(behind, vmid),
    ensures
        kept_tokens(before + channel_tokens(vmid) + behind, vmid) == before + behind,
    decreases before.len(),
{
    let channel = channel_tokens(vmid);
    let all = before + channel + behind;
    if before.len() == 0 {
        lemma_devices();
        lemma_chardev(vmid);
        law_other_args_stay(behind, vmid);
        let c2 = all.skip(2);
        let c4 = c2.skip(2);
        assert(all[0] == channel[0] && all[1] == channel[1]);
        assert(c2[0] == channel[2] && c2[1] == channel[3]);
        assert(c4[0] == channel[4] && c4[1] == channel[5]);
        assert(c4.skip(2) =~= behind);
        assert(kept_tokens(c4, vmid) == kept_tokens(behind, vmid));
        assert(kept_tokens(c2, vmid) == kept_tokens(c4, vmid));
        assert(kept_tokens(all, vmid) == kept_tokens(c2, vmid));
        assert(before + behind =~= behind);
    } else {
        let rest = before.skip(1);
        assert forall|i: int, j: int|
            0 <= i && j == i + 1 && j < rest.len() implies !bridge_pair(
            #[trigger] rest[i],
            #[trigger] rest[j],
            vmid,
        ) by {
            assert(rest[i] == before[i + 1]);
            assert(rest[j] == before[j + 1]);
        }
        law_channel_is_taken_out(rest, behind, vmid);
        assert(all[0] == before[0]);
        if before.len() >= 2 {
            assert(all[1] == before[1]);
            assert(!bridge_pair(before[0], before[1], vmid));
        } else {
            assert(all[1] == channel[0]);
            reveal_strlit("-chardev");
            lemma_pieces_unsplit("-chardev"@, Separator::Char(','));
            assert(!bridge_pair(all[0], all[1], vmid));
        }
        assert(all.skip(1) =~= rest + channel + behind);
        assert(seq![before[0]] + (rest + behind) =~= before + behind);
    }
}

/// What is asked of QEMU for a channel: a socket of the VM, a controller, and a
/// port on it, as words of the arguments.
pub proof fn law_channel_words(vmid: Seq<char>)
    ensures
        channel_tokens(vmid) == seq![
            "-chardev"@,
            "socket,id=vsb0,path=/run/vfio-sensor-bridge/vm-"@ + vmid
                + ".sock,server=on,wait=off"@,
            "-device"@,
            "virtio-serial-pci,id=vsbserial0"@,
            "-device"@,
            "virtserialport,chardev=vsb0,name=org.vfio_sensor_bridge.0"@,
        ],
        channel_tokens(vmid).len() == 6,
{
    reveal_strlit("socket,id=vsb0,path=");
    reveal_strlit("/run/vfio-sensor-bridge/vm-");
    reveal_strlit(".sock");
    reveal_strlit(",server=on,wait=off");
    reveal_strlit("socket,id=vsb0,path=/run/vfio-sensor-bridge/vm-");
    reveal_strlit(".sock,server=on,wait=off");
    assert("socket,id=vsb0,path="@ + socket_path(vmid) + ",server=on,wait=off"@
        =~= "socket,id=vsb0,path=/run/vfio-sensor-bridge/vm-"@ + vmid
        + ".sock,server=on,wait=off"@);
    assert(channel_tokens(vmid) =~= seq![
        "-chardev"@,
        "socket,id=vsb0,path=/run/vfio-sensor-bridge/vm-"@ + vmid + ".sock,server=on,wait=off"@,
        "-device"@,
        "virtio-serial-pci,id=vsbserial0"@,
        "-device"@,
        "virtserialport,chardev=vsb0,name=org.vfio_sensor_bridge.0"@,
    ]);
}

/// The arguments that a plan gives a VM, if any.
pub open spec fn planned_args(plan: ArgsPlan) -> Option<Seq<char>> {
    match plan {
        ArgsPlan::Keep => None,
        ArgsPlan::Replace(args) => Some(args@),
    }
}

/// The arguments that attaching gives a VM, if any.
pub open spec fn attach_args(existing: Seq<char>, vmid: Seq<char>) -> Option<Seq<char>> {
    if has_channel(words(existing)) {
        None
    } else {
        Some(with_channel(existing, vmid))
    }
}

/// The arguments that detaching gives a VM, if any.
pub open spec fn detach_args(existing: Seq<char>, vmid: Seq<char>) -> Option<Seq<char>> {
    if without_channel(existing, vmid) == collapsed(existing) {
        None
    } else {
        Some(without_channel(existing, vmid))
    }
}

/// Attaching a VM without a channel adds the words of its channel behind its own,
/// and attaching it once more changes nothing.
pub proof fn law_attaching_adds_the_channel(existing: Seq<char>, vmid: Seq<char>)
    requires
        is_vmid(vmid),
    ensures
        has_channel(words(existing)) <==> attach_args(existing, vmid) is None,
        attach_args(existing, vmid) matches Some(args) ==> words(args) == words(existing)
            + channel_tokens(vmid) && attach_args(args, vmid) is None,
{
    lemma_attached_words(existing, vmid);
    law_attached_has_channel(existing, vmid);
}

/// Detaching a VM whose words hold its channel between others leaves the others,
/// with single spaces; a VM without a channel is left alone.
pub proof fn law_detaching_leaves_the_rest(
    existing: Seq<char>,
    before: Seq<Seq<char>>,
    behind: Seq<Seq<char>>,
    vmid: Seq<char>,
)
    requires
        is_vmid(vmid),
        free_of_channel(before, vmid),
        free_of_channel(behind, vmid),
    ensures
        words(existing) == before + channel_tokens(vmid) + behind ==> detach_args(existing, vmid)
            == Some(joined(before + behind, " "@)),
        words(existing) == before ==> detach_args(existing, vmid) is None,
{
    law_channel_is_taken_out(before, behind, vmid);
    law_other_args_stay(before, vmid);
    let all = words(existing);
    if all == before + channel_tokens(vmid) + behind {
        let left = before + behind;
        lemma_words_are_words(existing);
        assert forall|i: int| 0 <= i < left.len() implies is_word(#[trigger] left[i]) by {
            if i < before.len() {
                assert(left[i] == all[i]);
            } else {
                assert(left[i] == all[i + 6]);
            }
        }
        law_joined_words(all);
        law_joined_words(left);
        assert(all.len() != left.len());
    }
}

/// The words of a text are words.
proof fn lemma_words_are_words(s: Seq<char>)
    ensures
        forall|i: int| 0 <= i < words(s).len() ==> is_word(#[trigger] words(s)[i]),
{
    lemma_pieces_unwhite(s);
    lemma_non_empty_words(pieces(s, Separator::White));
}

proof fn lemma_pieces_unwhite(s: Seq<char>)
    ensures
        forall|i: int|
            0 <= i < pieces(s, Separator::White).len() ==> unsplit(
                #[trigger] pieces(s, Separator::White)[i],
                Separator::White,
            ),
    decreases s.len(),
{
    if s.len() > 0 {
        lemma_pieces_unwhite(s.drop_last());
        lemma_pieces_nonempty(s.drop_last(), Separator::White);
        let before = pieces(s.drop_last(), Separator::White);
        let parts = pieces(s, Separator::White);
        assert forall|i: int| 0 <= i < parts.len() implies unsplit(
            #[trigger] parts[i],
            Separator::White,
        ) by {
            assert(unsplit(before[before.len() - 1], Separator::White));
            if i < before.len() - 1 {
                assert(parts[i] == before[i]);
            }
        }
    }
}

proof fn lemma_non_empty_words(parts: Seq<Seq<char>>)
    requires
        forall|i: int| 0 <= i < parts.len() ==> unsplit(#[trigger] parts[i], Separator::White),
    ensures
        forall|i: int| 0 <= i < non_empty(parts).len() ==> is_word(#[trigger] non_empty(parts)[i]),
    decreases parts.len(),
{
    if parts.len() > 0 {
        let before = parts.drop_last();
        assert forall|i: int| 0 <= i < before.len() implies unsplit(
            #[trigger] before[i],
            Separator::White,
        ) by {
            assert(before[i] == parts[i]);
        }
        lemma_non_empty_words(before);
        let last = parts[parts.len() - 1];
        assert(unsplit(last, Separator::White));
        assert forall|i: int| 0 <= i < last.len() implies !is_white(#[trigger] last[i]) by {
            assert(!Separator::White.splits(last[i]));
        }
        let kept = non_empty(before);
        assert forall|i: int| 0 <= i < non_empty(parts).len() implies is_word(
            #[trigger] non_empty(parts)[i],
        ) by {
            if i < kept.len() {
                assert(non_empty(parts)[i] == kept[i]);
            } else {
                assert(non_empty(parts)[i] == last);
            }
        }
    }
}

} // verus!
