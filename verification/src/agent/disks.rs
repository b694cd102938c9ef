//! Which devices are read as disks, and how often.

use crate::agent::config::SmartctlSection;
use crate::agent::glob::{fits, wildcard_match};
use crate::agent::smartctl::{
    disk_label, render_smartctl_label, unknown_disk, DiskView, SmartctlIdentity,
};
use crate::ctl::qm::{lemma_pieces_joined, lemma_pieces_unsplit, unsplit};
use crate::id_map::IdMap;
use crate::number::{format_i64, signed_decimal};
use crate::order::{is_stable_sort, lemma_stable_sort_contains, sort_by_key, Keyed};
use crate::path::{file_name, file_name_of, join_path, parent, parent_of, path_join};
use crate::protocol::{DescriptorView, SensorDescriptor, SensorKind};
use crate::text::{
    begins_with, chars_of, concat, concat3, contains, contains_text, digit, is_digit, joined,
    pieces, same, split, string_of, subrange, text_less, texts, views, Separator,
};
use crate::time::{elapsed, has_passed, lookup, passed};
use vstd::prelude::*;
use vstd::utf8::encode_utf8;

verus! {

// ── Names of partitions ──────────────────────────────────────────────────────

/// Whether a text is not empty and holds digits only.
pub open spec fn is_number(s: Seq<char>) -> bool {
    s.len() > 0 && forall|i: int| 0 <= i < s.len() ==> is_digit(#[trigger] s[i])
}

/// Whether a text holds a digit.
pub open spec fn has_digit(s: Seq<char>) -> bool {
    exists|i: int| 0 <= i < s.len() && is_digit(#[trigger] s[i])
}

/// Whether `i` is where a name ends in `p` and a number, behind a part with a
/// digit, as in `nvme0n1p1`.
pub open spec fn numbered_partition(name: Seq<char>, i: int) -> bool {
    &&& 0 <= i < name.len()
    &&& name[i] == 'p'
    &&& is_number(name.skip(i + 1))
    &&& has_digit(name.take(i))
}

/// Whether a text is `prefix` and one small letter.
pub open spec fn lettered_base(s: Seq<char>, prefix: Seq<char>) -> bool {
    s.len() == prefix.len() + 1 && s.take(prefix.len() as int) == prefix && 'a' <= s.last() <= 'z'
}

/// Whether `i` is where a name splits into a lettered disk and a number, as in
/// `sda1`.
pub open spec fn lettered_partition(name: Seq<char>, i: int) -> bool {
    &&& 0 <= i < name.len()
    &&& is_number(name.skip(i))
    &&& lettered_base(name.take(i), "sd"@) || lettered_base(name.take(i), "vd"@) || lettered_base(
        name.take(i),
        "xvd"@,
    )
}

/// Whether a name looks like that of a partition.
pub open spec fn partition_name(name: Seq<char>) -> bool {
    ||| exists|i: int| numbered_partition(name, i)
    ||| exists|i: int| lettered_partition(name, i)
}

fn all_digits(s: &[char], from: usize) -> (yes: bool)
    requires
        from <= s@.len(),
    ensures
        yes == is_number(s@.skip(from as int)),
{
    if from == s.len() {
        return false;
    }
    let ghost tail = s@.skip(from as int);
    for i in from..s.len()
        invariant
            from <= s@.len(),
            tail == s@.skip(from as int),
            forall|j: int| 0 <= j < i - from ==> is_digit(#[trigger] tail[j]),
    {
        assert(tail[i - from] == s@[i as int]);
        if !digit(s[i]) {
            return false;
        }
    }
    true
}

fn any_digit(s: &[char], to: usize) -> (yes: bool)
    requires
        to <= s@.len(),
    ensures
        yes == has_digit(s@.take(to as int)),
{
    let ghost head = s@.take(to as int);
    for i in 0..to
        invariant
            to <= s@.len(),
            head == s@.take(to as int),
            forall|j: int| 0 <= j < i ==> !is_digit(#[trigger] head[j]),
    {
        assert(head[i as int] == s@[i as int]);
        if digit(s[i]) {
            return true;
        }
    }
    false
}

fn is_lettered_disk_base(s: &[char], to: usize, prefix: &str) -> (yes: bool)
    requires
        to <= s@.len(),
    ensures
        yes == lettered_base(s@.take(to as int), prefix@),
{
    let base = subrange(s, 0, to);
    assert(base@ =~= s@.take(to as int));
    let p = chars_of(prefix);
    if base.len() == 0 || base.len() - 1 != p.len() {
        return false;
    }
    let last = base[base.len() - 1];
    begins_with(&base, &p) && 'a' <= last && last <= 'z'
}

/// Whether a name looks like that of a partition.
pub fn looks_like_partition_name(name: &str) -> (yes: bool)
    ensures
        yes == partition_name(name@),
{
    let chars = chars_of(name);
    let mut i: usize = chars.len();
    while i > 0
        invariant
            chars@ == name@,
            i <= chars@.len(),
            forall|j: int| i <= j < chars@.len() ==> !numbered_partition(name@, j),
            forall|j: int| i <= j < chars@.len() ==> !lettered_partition(name@, j),
        decreases i,
    {
        i = i - 1;
        if chars[i] == 'p' && all_digits(&chars, i + 1) && any_digit(&chars, i) {
            assert(numbered_partition(name@, i as int));
            return true;
        }
        if all_digits(&chars, i) && (is_lettered_disk_base(&chars, i, "sd")
            || is_lettered_disk_base(&chars, i, "vd") || is_lettered_disk_base(
            &chars,
            i,
            "xvd",
        )) {
            assert(lettered_partition(name@, i as int));
            return true;
        }
    }
    false
}

// ── Devices ──────────────────────────────────────────────────────────────────

/// What the file system says of the path of a device.
#[derive(Clone, Copy, Debug, PartialEq, Eq, Structural)]
pub enum FileFact {
    /// There is no such file.
    Missing,
    /// It is a block device.
    Device,
    /// It is something else.
    Other,
    /// It could not be looked at.
    Unreadable,
}

/// What the system says of a device.
#[derive(Clone, Copy, Debug, PartialEq, Eq, Structural)]
pub struct DeviceFacts {
    /// The kernel knows it as a partition.
    pub is_partition: bool,
    /// The kernel knows it as a block device.
    pub is_block: bool,
    pub file: FileFact,
}

/// Whether a path is that of a disk.
pub open spec fn candidate(path: Seq<char>, facts: DeviceFacts) -> bool {
    match file_name_of(path) {
        None => false,
        Some(name) => if facts.is_partition {
            false
        } else if facts.is_block {
            true
        } else if partition_name(name) {
            false
        } else {
            facts.file == FileFact::Device || facts.file == FileFact::Unreadable
        },
    }
}

/// Whether a path is that of a disk.
pub fn is_candidate_device(path: &str, facts: DeviceFacts) -> (yes: bool)
    ensures
        yes == candidate(path@, facts),
{
    match file_name(path) {
        None => false,
        Some(name) => {
            if facts.is_partition {
                return false;
            }
            if facts.is_block {
                return true;
            }
            if looks_like_partition_name(&name) {
                return false;
            }
            facts.file == FileFact::Device || facts.file == FileFact::Unreadable
        },
    }
}

/// Where the kernel describes a block device of the given name.
pub fn sys_block_path(name: &str) -> (path: String)
    ensures
        path@ == path_join("/sys/class/block"@, name@),
{
    join_path("/sys/class/block", name)
}

/// What a pattern of devices asks for.
pub enum PatternPlan {
    /// One path.
    Single(String),
    /// The entries of a directory whose names fit a pattern.
    Directory { parent: String, name_pattern: String },
    /// Nothing.
    Nothing,
}

/// Whether a pattern has a wildcard.
pub open spec fn wild(pattern: Seq<char>) -> bool {
    contains_text(pattern, "*"@) || contains_text(pattern, "?"@)
}

/// What a pattern of devices asks for. A pattern without a directory asks for
/// entries of the directory with the empty path.
pub fn plan_pattern(pattern: &str) -> (plan: PatternPlan)
    ensures
        match plan {
            PatternPlan::Single(path) => !wild(pattern@) && path@ == pattern@,
            PatternPlan::Directory { parent, name_pattern } => {
                &&& wild(pattern@)
                &&& file_name_of(pattern@) == Some(name_pattern@)
                &&& parent@ == (match parent_of(pattern@) {
                    Some(parent) => parent,
                    None => "."@,
                })
            },
            PatternPlan::Nothing => wild(pattern@) && file_name_of(pattern@) is None,
        },
{
    if !contains(pattern, "*") && !contains(pattern, "?") {
        return PatternPlan::Single(pattern.to_string());
    }
    let parent = match parent(pattern) {
        Some(parent) => parent,
        None => ".".to_string(),
    };
    match file_name(pattern) {
        Some(name_pattern) => PatternPlan::Directory { parent, name_pattern },
        None => PatternPlan::Nothing,
    }
}

/// The components of a path, without those that change nothing.
pub open spec fn plain_components(parts: Seq<Seq<char>>) -> Seq<Seq<char>>
    decreases parts.len(),
{
    if parts.len() == 0 {
        Seq::empty()
    } else {
        let before = plain_components(parts.drop_last());
        let part = parts.last();
        if part.len() == 0 || (part == seq!['.'] && parts.len() > 1) {
            before
        } else {
            before.push(part)
        }
    }
}

/// What a path stands for: whether it is absolute, and its components.
pub open spec fn path_identity(path: Seq<char>) -> (bool, Seq<Seq<char>>) {
    (
        path.len() > 0 && path[0] == '/',
        plain_components(pieces(path, Separator::Char('/'))),
    )
}

fn components(path: &str) -> (parts: Vec<String>)
    ensures
        texts(parts@) == plain_components(pieces(path@, Separator::Char('/'))),
{
    let chars = chars_of(path);
    let all = split(&chars, Separator::Char('/'));
    let mut parts: Vec<String> = Vec::new();
    assert(texts(parts@) =~= plain_components(views(all@).take(0)));
    for i in 0..all.len()
        invariant
            texts(parts@) == plain_components(views(all@).take(i as int)),
    {
        let ghost before = texts(parts@);
        let dot = all[i].len() == 1 && all[i][0] == '.';
        proof {
            let next = views(all@).take(i as int + 1);
            assert(next.drop_last() =~= views(all@).take(i as int));
            assert(next.last() == all@[i as int]@);
            assert(dot == (all@[i as int]@ =~= seq!['.']));
        }
        if !(all[i].len() == 0 || (dot && i > 0)) {
            parts.push(string_of(&all[i]));
            assert(texts(parts@) =~= before.push(all@[i as int]@));
        }
    }
    assert(views(all@).take(all@.len() as int) =~= views(all@));
    parts
}

/// Whether two paths stand for the same.
pub fn same_path(a: &str, b: &str) -> (equal: bool)
    ensures
        equal == (path_identity(a@) == path_identity(b@)),
{
    let x = chars_of(a);
    let y = chars_of(b);
    let absolute_a = x.len() > 0 && x[0] == '/';
    let absolute_b = y.len() > 0 && y[0] == '/';
    let p = components(a);
    let q = components(b);
    if absolute_a != absolute_b || p.len() != q.len() {
        assert(texts(p@).len() == p@.len() && texts(q@).len() == q@.len());
        return false;
    }
    for i in 0..p.len()
        invariant
            p@.len() == q@.len(),
            texts(p@) == path_identity(a@).1,
            texts(q@) == path_identity(b@).1,
            forall|j: int| 0 <= j < i ==> (#[trigger] p@[j])@ == q@[j]@,
    {
        if !same(&p[i], &q[i]) {
            assert(texts(p@)[i as int] != texts(q@)[i as int]);
            return false;
        }
    }
    assert(texts(p@) =~= texts(q@));
    true
}

/// A path that may be that of a disk, and what the system says of it.
pub struct FoundDevice {
    pub path: String,
    pub facts: DeviceFacts,
}

/// The entries of a directory whose names fit a pattern, as paths.
pub fn fitting_entries(parent: &str, name_pattern: &str, entries: &[String]) -> (paths: Vec<
    String,
>)
    ensures
        texts(paths@) == fitting_paths(parent@, name_pattern@, texts(entries@)),
{
    let ghost all = texts(entries@);
    let mut paths: Vec<String> = Vec::new();
    assert(texts(paths@) =~= fitting_paths(parent@, name_pattern@, all.take(0)));
    for i in 0..entries.len()
        invariant
            all == texts(entries@),
            texts(paths@) == fitting_paths(parent@, name_pattern@, all.take(i as int)),
    {
        let ghost before = texts(paths@);
        proof {
            assert(all.take(i as int + 1).drop_last() =~= all.take(i as int));
            assert(all.take(i as int + 1).last() == entries@[i as int]@);
        }
        if wildcard_match(name_pattern, &entries[i]) {
            paths.push(join_path(parent, &entries[i]));
            assert(texts(paths@) =~= before.push(path_join(parent@, entries@[i as int]@)));
        }
    }
    assert(all.take(all.len() as int) =~= all);
    paths
}

/// The entries of a directory whose names fit a pattern, as paths.
pub open spec fn fitting_paths(
    parent: Seq<char>,
    name_pattern: Seq<char>,
    entries: Seq<Seq<char>>,
) -> Seq<Seq<char>>
    decreases entries.len(),
{
    if entries.len() == 0 {
        Seq::empty()
    } else {
        let before = fitting_paths(parent, name_pattern, entries.drop_last());
        if fits(encode_utf8(name_pattern), encode_utf8(entries.last())) {
            before.push(path_join(parent, entries.last()))
        } else {
            before
        }
    }
}

/// Whether one of some paths stands for the same as `path`.
pub open spec fn lists_path(paths: Seq<Seq<char>>, path: Seq<char>) -> bool {
    exists|i: int| 0 <= i < paths.len() && path_identity(#[trigger] paths[i]) == path_identity(path)
}

/// The disks among some devices: of those that stand for the same the first.
pub open spec fn distinct_disks(found: Seq<FoundDevice>) -> Seq<Seq<char>>
    decreases found.len(),
{
    if found.len() == 0 {
        Seq::empty()
    } else {
        let before = distinct_disks(found.drop_last());
        let device = found.last();
        if candidate(device.path@, device.facts) && !lists_path(before, device.path@) {
            before.push(device.path@)
        } else {
            before
        }
    }
}

/// Where a component stands among others: one dot, two dots, and the rest.
pub open spec fn component_rank(part: Seq<char>) -> char {
    if part == seq!['.'] {
        '\u{2}'
    } else if part == seq!['.', '.'] {
        '\u{3}'
    } else {
        '\u{4}'
    }
}

/// Components as one text that stands among others as the components do.
pub open spec fn components_order(parts: Seq<Seq<char>>) -> Seq<char>
    decreases parts.len(),
{
    if parts.len() == 0 {
        Seq::empty()
    } else {
        components_order(parts.drop_last()).push(component_rank(parts.last())) + parts.last().push(
            '\0',
        )
    }
}

/// The text that a path is ordered by: paths are ordered component by component,
/// and absolute ones come first.
pub open spec fn path_order(path: Seq<char>) -> Seq<char> {
    let (absolute, parts) = path_identity(path);
    if absolute {
        seq!['\u{1}'] + components_order(parts)
    } else {
        components_order(parts)
    }
}

fn order_key(path: &str) -> (key: String)
    ensures
        key@ == path_order(path@),
{
    let chars = chars_of(path);
    let parts = components(path);
    let ghost all = texts(parts@);
    let mut key = String::new();
    if chars.len() > 0 && chars[0] == '/' {
        key.push('\u{1}');
    }
    let ghost head = key@;
    assert(head + components_order(all.take(0)) =~= head);
    for i in 0..parts.len()
        invariant
            all == texts(parts@),
            key@ == head + components_order(all.take(i as int)),
    {
        let ghost before = key@;
        proof {
            assert(all.take(i as int + 1).drop_last() =~= all.take(i as int));
            assert(all.take(i as int + 1).last() == parts@[i as int]@);
            reveal_strlit(".");
            reveal_strlit("..");
            assert("."@ =~= seq!['.']);
            assert(".."@ =~= seq!['.', '.']);
        }
        if same(&parts[i], ".") {
            key.push('\u{2}');
        } else if same(&parts[i], "..") {
            key.push('\u{3}');
        } else {
            key.push('\u{4}');
        }
        key.append(&parts[i]);
        key.push('\0');
        assert(key@ =~= before.push(component_rank(parts@[i as int]@)) + parts@[i as int]@.push(
            '\0',
        ));
        assert(key@ =~= head + components_order(all.take(i as int + 1)));
    }
    assert(all.take(all.len() as int) =~= all);
    assert(key@ =~= path_order(path@));
    key
}

/// A path with the text that it is ordered by.
struct OrderedPath {
    path: String,
    order: String,
}

impl Keyed for OrderedPath {
    closed spec fn key_text(&self) -> Seq<char> {
        self.order@
    }

    fn key(&self) -> (key: &str) {
        self.order.as_str()
    }
}

/// Whether each path goes with the text that it is ordered by.
spec fn ordered_rightly(items: Seq<OrderedPath>) -> bool {
    forall|i: int|
        0 <= i < items.len() ==> (#[trigger] items[i]).order@ == path_order(items[i].path@)
}

spec fn paths_of(items: Seq<OrderedPath>) -> Seq<Seq<char>> {
    items.map_values(|item: OrderedPath| item.path@)
}

fn distinct_paths(found: &[FoundDevice]) -> (items: Vec<OrderedPath>)
    ensures
        ordered_rightly(items@),
        paths_of(items@) == distinct_disks(found@),
{
    let mut items: Vec<OrderedPath> = Vec::new();
    assert(paths_of(items@) =~= distinct_disks(found@.take(0)));
    for n in 0..found.len()
        invariant
            ordered_rightly(items@),
            paths_of(items@) == distinct_disks(found@.take(n as int)),
    {
        let ghost before = items@;
        assert(found@.take(n as int + 1).drop_last() =~= found@.take(n as int));
        let device = &found[n];
        if is_candidate_device(&device.path, device.facts) {
            let mut listed = false;
            for i in 0..items.len()
                invariant
                    listed == exists|j: int|
                        0 <= j < i && path_identity(#[trigger] paths_of(items@)[j])
                            == path_identity(device.path@),
            {
                assert(paths_of(items@)[i as int] == items@[i as int].path@);
                if same_path(&items[i].path, &device.path) {
                    listed = true;
                }
            }
            assert(listed == lists_path(paths_of(items@), device.path@));
            if !listed {
                items.push(
                    OrderedPath { path: device.path.clone(), order: order_key(&device.path) },
                );
                assert(paths_of(items@) =~= paths_of(before).push(device.path@));
            }
        }
    }
    assert(found@.take(found@.len() as int) =~= found@);
    items
}

/// The disks among some devices, each once, in the order of their paths.
pub fn select_devices(found: &[FoundDevice]) -> (paths: Vec<String>)
    ensures
        paths@.len() == distinct_disks(found@).len(),
        forall|path: Seq<char>| #[trigger]
            texts(paths@).contains(path) <==> distinct_disks(found@).contains(path),
        forall|i: int, j: int|
            0 <= i < j < paths@.len() ==> !text_less(
                path_order((#[trigger] paths@[j])@),
                path_order((#[trigger] paths@[i])@),
            ),
{
    let items = distinct_paths(found);
    let ghost all = items@;
    let sorted = sort_by_key(items);
    proof {
        assert forall|i: int| 0 <= i < sorted@.len() implies (#[trigger] sorted@[i]).order@
            == path_order(sorted@[i].path@) by {
            lemma_stable_sort_contains(all, sorted@, sorted@[i]);
            assert(sorted@.contains(sorted@[i]));
            let k = choose|k: int| 0 <= k < all.len() && all[k] == sorted@[i];
            assert(all[k].order@ == path_order(all[k].path@));
        }
    }
    let mut paths: Vec<String> = Vec::new();
    for i in 0..sorted.len()
        invariant
            texts(paths@) == paths_of(sorted@).take(i as int),
    {
        let ghost before = texts(paths@);
        paths.push(sorted[i].path.clone());
        assert(texts(paths@) =~= before.push(sorted@[i as int].path@));
        assert(texts(paths@) =~= paths_of(sorted@).take(i as int + 1));
    }
    assert(texts(paths@) =~= paths_of(sorted@));
    proof {
        assert forall|path: Seq<char>| #[trigger]
            texts(paths@).contains(path) <==> distinct_disks(found@).contains(path) by {
            if paths_of(sorted@).contains(path) {
                let i = choose|i: int| 0 <= i < sorted@.len() && paths_of(sorted@)[i] == path;
                lemma_stable_sort_contains(all, sorted@, sorted@[i]);
                assert(sorted@.contains(sorted@[i]));
                let k = choose|k: int| 0 <= k < all.len() && all[k] == sorted@[i];
                assert(paths_of(all)[k] == path);
            }
            if paths_of(all).contains(path) {
                let k = choose|k: int| 0 <= k < all.len() && paths_of(all)[k] == path;
                lemma_stable_sort_contains(all, sorted@, all[k]);
                assert(all.contains(all[k]));
                let i = choose|i: int| 0 <= i < sorted@.len() && sorted@[i] == all[k];
                assert(paths_of(sorted@)[i] == path);
            }
        }
        assert forall|i: int, j: int| 0 <= i < j < paths@.len() implies !text_less(
            path_order((#[trigger] paths@[j])@),
            path_order((#[trigger] paths@[i])@),
        ) by {
            assert(paths@[i]@ == texts(paths@)[i] && paths@[j]@ == texts(paths@)[j]);
            assert(sorted@[i].path@ == paths_of(sorted@)[i]);
            assert(sorted@[j].path@ == paths_of(sorted@)[j]);
            assert(!text_less(sorted@[j].key_text(), sorted@[i].key_text()));
        }
    }
    paths
}

// ── Reading ──────────────────────────────────────────────────────────────────

/// A temperature that was read before.
#[derive(Clone, Copy, Debug)]
pub struct CachedTemperature {
    pub value: i64,
    pub read_at: u64,
}

/// Where the temperature of a disk comes from.
#[derive(Debug)]
pub struct SmartctlSource {
    pub command: String,
    pub device: String,
    pub timeout_seconds: u64,
    pub poll_seconds: u64,
    pub cache: Option<CachedTemperature>,
}

/// A number of seconds, at least one.
pub open spec fn at_least_one(seconds: u64) -> u64 {
    if seconds < 1 {
        1
    } else {
        seconds
    }
}

fn raise_to_one(seconds: u64) -> (raised: u64)
    ensures
        raised == at_least_one(seconds),
{
    if seconds < 1 {
        1
    } else {
        seconds
    }
}

impl SmartctlSource {
    /// Whether this is the source of `device` as configured.
    pub open spec fn reads(self, config: SmartctlSection, device: Seq<char>) -> bool {
        &&& self.command@ == config.command@
        &&& self.device@ == device
        &&& self.timeout_seconds == at_least_one(config.timeout_seconds)
        &&& self.poll_seconds == at_least_one(config.poll_seconds)
    }

    /// The same source.
    pub fn copy(&self) -> (copy: SmartctlSource)
        ensures
            copy.command@ == self.command@,
            copy.device@ == self.device@,
            copy.timeout_seconds == self.timeout_seconds,
            copy.poll_seconds == self.poll_seconds,
            copy.cache == self.cache,
    {
        SmartctlSource {
            command: self.command.clone(),
            device: self.device.clone(),
            timeout_seconds: self.timeout_seconds,
            poll_seconds: self.poll_seconds,
            cache: self.cache,
        }
    }

    /// A value that was read recently enough to be used again.
    pub fn cached(&self, now: u64) -> (value: Option<i64>)
        ensures
            value == (match self.cache {
                Some(cached) if !has_passed(now, cached.read_at, self.poll_seconds) => Some(
                    cached.value,
                ),
                _ => None,
            }),
            value == (match self.cache {
                Some(cached) => still_fresh(cached.value, cached.read_at, self.poll_seconds, now),
                None => None,
            }),
    {
        match self.cache {
            Some(cached) => {
                if !passed(now, cached.read_at, self.poll_seconds) {
                    Some(cached.value)
                } else {
                    None
                }
            },
            None => None,
        }
    }

    /// Keeps a value that was read.
    pub fn remember(&mut self, value: i64, now: u64)
        ensures
            *final(self) == (SmartctlSource {
                cache: Some(CachedTemperature { value, read_at: now }),
                ..*old(self)
            }),
    {
        self.cache = Some(CachedTemperature { value, read_at: now });
    }

    /// The key under which discoveries of this source are kept.
    pub fn cache_key(&self) -> (key: String)
        ensures
            key@ == self.command@ + "\0"@ + self.device@,
    {
        concat3(&self.command, "\0", &self.device)
    }
}

/// What was read at a moment, for as long as it need not be read again.
pub open spec fn still_fresh<T>(value: T, read_at: u64, poll_seconds: u64, now: u64) -> Option<T> {
    if elapsed(now, read_at) < poll_seconds * 1_000_000_000 {
        Some(value)
    } else {
        None
    }
}

/// What was read is used again until the time between two readings has passed,
/// to the nanosecond, and not afterwards; a reading of this very moment is used.
pub proof fn law_readings_are_used_again<T>(value: T, read_at: u64, poll_seconds: u64, now: u64)
    ensures
        now >= read_at && now - read_at < poll_seconds * 1_000_000_000 ==> still_fresh(
            value,
            read_at,
            poll_seconds,
            now,
        ) == Some(value),
        poll_seconds >= 1 ==> still_fresh(value, read_at, poll_seconds, read_at) == Some(value),
        now >= read_at + poll_seconds * 1_000_000_000 ==> still_fresh(
            value,
            read_at,
            poll_seconds,
            now,
        ) is None,
{
}

/// What to do about a `smartctl` that was started.
#[derive(Clone, Copy, Debug, PartialEq, Eq, Structural)]
pub enum SmartctlWait {
    /// It has exited: take what it printed.
    Done,
    /// It took too long: end it and fail.
    TimedOut,
    /// It runs: look again a little later.
    Sleep,
}

impl SmartctlSource {
    /// What to do about a `smartctl` that was started at `started`.
    pub fn wait_step(&self, exited: bool, started: u64, now: u64) -> (step: SmartctlWait)
        ensures
            step == (if exited {
                SmartctlWait::Done
            } else if has_passed(now, started, self.timeout_seconds) {
                SmartctlWait::TimedOut
            } else {
                SmartctlWait::Sleep
            }),
            step == awaited(exited, started, self.timeout_seconds, now),
    {
        if exited {
            SmartctlWait::Done
        } else if passed(now, started, self.timeout_seconds) {
            SmartctlWait::TimedOut
        } else {
            SmartctlWait::Sleep
        }
    }
}

/// What to do about a `smartctl`, where `exited` says whether it has exited.
pub open spec fn awaited(
    exited: bool,
    started: u64,
    timeout_seconds: u64,
    now: u64,
) -> SmartctlWait {
    if exited {
        SmartctlWait::Done
    } else if elapsed(now, started) >= timeout_seconds * 1_000_000_000 {
        SmartctlWait::TimedOut
    } else {
        SmartctlWait::Sleep
    }
}

/// A `smartctl` that has exited is done, however late it is. One that has not is
/// waited for until its time is up, and ended then.
pub proof fn law_smartctl_is_waited_for(started: u64, timeout_seconds: u64, now: u64)
    requires
        started <= now,
    ensures
        awaited(true, started, timeout_seconds, now) == SmartctlWait::Done,
        now < started + timeout_seconds * 1_000_000_000 <==> awaited(
            false,
            started,
            timeout_seconds,
            now,
        ) == SmartctlWait::Sleep,
        now >= started + timeout_seconds * 1_000_000_000 <==> awaited(
            false,
            started,
            timeout_seconds,
            now,
        ) == SmartctlWait::TimedOut,
{
}

/// The source of a disk as configured.
pub fn source_for_device(config: &SmartctlSection, device: String) -> (source: SmartctlSource)
    ensures
        source.reads(*config, device@),
        source.cache is None,
{
    SmartctlSource {
        command: config.command.clone(),
        device,
        timeout_seconds: raise_to_one(config.timeout_seconds),
        poll_seconds: raise_to_one(config.poll_seconds),
        cache: None,
    }
}

/// What a look at a disk came to, and when.
#[derive(Clone, Copy, Debug)]
pub struct DiscoveryTemperature {
    pub value: Option<i64>,
    pub read_at: u64,
}

impl View for DiscoveryTemperature {
    type V = DiscoveryTemperature;

    open spec fn view(&self) -> DiscoveryTemperature {
        *self
    }
}

/// What a disk said of itself, and when.
#[derive(Debug)]
pub struct DiscoveryIdentity {
    pub identity: Option<SmartctlIdentity>,
    pub read_at: u64,
}

impl View for DiscoveryIdentity {
    type V = (Option<DiskView>, u64);

    open spec fn view(&self) -> (Option<DiskView>, u64) {
        (
            match self.identity {
                Some(identity) => Some(identity@),
                None => None,
            },
            self.read_at,
        )
    }
}

/// What recent looks at disks came to, misses among them.
#[derive(Debug)]
pub struct DiscoveryCache {
    pub temperatures: IdMap<DiscoveryTemperature>,
    pub identities: IdMap<DiscoveryIdentity>,
}

impl DiscoveryCache {
    /// An empty cache.
    pub fn new() -> (cache: Self)
        ensures
            cache.temperatures@ == Map::<Seq<char>, DiscoveryTemperature>::empty(),
            cache.identities@ == Map::<Seq<char>, (Option<DiskView>, u64)>::empty(),
    {
        DiscoveryCache { temperatures: IdMap::new(), identities: IdMap::new() }
    }

    /// What a recent look at the temperature came to: the outer option says
    /// whether there was one, the inner one whether it found anything.
    pub fn temperature(&self, key: &str, poll_seconds: u64, now: u64) -> (found: Option<
        Option<i64>,
    >)
        ensures
            found == (match lookup(self.temperatures@, key@) {
                Some(seen) if !has_passed(now, seen.read_at, poll_seconds) => Some(seen.value),
                _ => None,
            }),
            found == (match lookup(self.temperatures@, key@) {
                Some(seen) => still_fresh(seen.value, seen.read_at, poll_seconds, now),
                None => None,
            }),
    {
        match self.temperatures.get(key) {
            Some(seen) => {
                if !passed(now, seen.read_at, poll_seconds) {
                    Some(seen.value)
                } else {
                    None
                }
            },
            None => None,
        }
    }

    /// Keeps what a look at the temperature came to.
    pub fn remember_temperature(&mut self, key: String, value: Option<i64>, now: u64)
        ensures
            final(self).temperatures@ == old(self).temperatures@.insert(
                key@,
                DiscoveryTemperature { value, read_at: now },
            ),
            final(self).identities@ == old(self).identities@,
    {
        self.temperatures.insert(key, DiscoveryTemperature { value, read_at: now });
    }

    /// What a disk recently said of itself, if it was asked; nothing known
    /// where it did not answer.
    pub fn identity(&self, key: &str, poll_seconds: u64, now: u64) -> (found: Option<
        SmartctlIdentity,
    >)
        ensures
            (match found {
                Some(identity) => Some(identity@),
                None => None,
            }) == (match lookup(self.identities@, key@) {
                Some((identity, read_at)) if !has_passed(now, read_at, poll_seconds) => Some(
                    match identity {
                        Some(identity) => identity,
                        None => unknown_disk(),
                    },
                ),
                _ => None,
            }),
            found is Some == (match lookup(self.identities@, key@) {
                Some((identity, read_at)) => still_fresh(
                    identity,
                    read_at,
                    poll_seconds,
                    now,
                ) is Some,
                None => false,
            }),
    {
        match self.identities.get(key) {
            Some(seen) => {
                if !passed(now, seen.read_at, poll_seconds) {
                    match &seen.identity {
                        Some(identity) => Some(identity.clone()),
                        None => Some(SmartctlIdentity::default()),
                    }
                } else {
                    None
                }
            },
            None => None,
        }
    }

    /// Keeps what a disk said of itself.
    pub fn remember_identity(
        &mut self,
        key: String,
        identity: Option<SmartctlIdentity>,
        now: u64,
    )
        ensures
            final(self).identities@ == old(self).identities@.insert(
                key@,
                (
                    match identity {
                        Some(identity) => Some(identity@),
                        None => None,
                    },
                    now,
                ),
            ),
            final(self).temperatures@ == old(self).temperatures@,
    {
        self.identities.insert(key, DiscoveryIdentity { identity, read_at: now });
    }
}

// ── Sensors ──────────────────────────────────────────────────────────────────

/// A disk that answered.
pub struct DiskReading {
    pub device: String,
    /// Its temperature, in thousandths of a degree.
    pub value: i64,
    pub identity: SmartctlIdentity,
    /// When it was read.
    pub read_at: u64,
}

/// The sensor of a disk.
#[derive(Debug)]
pub struct SmartctlSensor {
    pub descriptor: SensorDescriptor,
    pub source: SmartctlSource,
}

impl Keyed for SmartctlSensor {
    open spec fn key_text(&self) -> Seq<char> {
        self.descriptor.id@
    }

    fn key(&self) -> (key: &str) {
        self.descriptor.id.as_str()
    }
}

/// The identifier of the sensor of a disk.
pub open spec fn smartctl_id(device: Seq<char>) -> Seq<char> {
    "smartctl:"@ + device
}

/// The identifier of the sensor of a disk.
pub fn smartctl_dynamic_id(device: &str) -> (id: String)
    ensures
        id@ == smartctl_id(device@),
{
    concat("smartctl:", device)
}

/// Whether `sensor` is that of a disk that answered.
pub open spec fn is_sensor_of(
    sensor: SmartctlSensor,
    config: SmartctlSection,
    reading: DiskReading,
) -> bool {
    &&& sensor.descriptor@ == (DescriptorView {
        id: smartctl_id(reading.device@),
        kind: SensorKind::Temperature,
        label: disk_label(config.label_template@, reading.device@, reading.identity@),
        persistent: false,
        default_value: None,
    })
    &&& sensor.source.reads(config, reading.device@)
    &&& sensor.source.cache == Some(
        CachedTemperature { value: reading.value, read_at: reading.read_at },
    )
}

/// The sensors of the disks that answered, in the order of their identifiers;
/// none where disks are not read.
pub fn scan_smartctl_sensors(config: &SmartctlSection, readings: &[DiskReading]) -> (sensors: Vec<
    SmartctlSensor,
>)
    ensures
        !config.enabled ==> sensors@.len() == 0,
        config.enabled ==> exists|found: Seq<SmartctlSensor>|
            {
                &&& found.len() == readings@.len()
                &&& forall|i: int|
                    0 <= i < readings@.len() ==> is_sensor_of(
                        #[trigger] found[i],
                        *config,
                        readings@[i],
                    )
                &&& #[trigger] is_stable_sort(found, sensors@)
            },
{
    let mut found: Vec<SmartctlSensor> = Vec::new();
    if !config.enabled {
        return found;
    }
    for i in 0..readings.len()
        invariant
            found@.len() == i,
            forall|j: int|
                0 <= j < i ==> is_sensor_of(#[trigger] found@[j], *config, readings@[j]),
    {
        let reading = &readings[i];
        let mut source = source_for_device(config, reading.device.clone());
        source.remember(reading.value, reading.read_at);
        found.push(
            SmartctlSensor {
                descriptor: SensorDescriptor {
                    id: smartctl_dynamic_id(&reading.device),
                    kind: SensorKind::Temperature,
                    label: render_smartctl_label(
                        &config.label_template,
                        &reading.device,
                        &reading.identity,
                    ),
                    persistent: false,
                    default_value: None,
                },
                source,
            },
        );
    }
    let ghost all = found@;
    let sensors = sort_by_key(found);
    assert(is_stable_sort(all, sensors@));
    sensors
}

/// One line of a probe.
pub fn smartctl_probe_line(device: &str, label: &str, value: i64) -> (line: String)
    ensures
        line@ == device@ + " "@ + label@ + ": "@ + signed_decimal(value as int),
{
    let mut line = concat3(device, " ", label);
    line.append(": ");
    line.append(&format_i64(value));
    line
}

// ── What names and paths mean ────────────────────────────────────────────────

/// A name is that of a partition where a number stands behind a `p` that has a
/// digit somewhere before it, or behind `sd`, `vd` or `xvd` and one small letter.
/// A name that does not end with a digit is none.
pub proof fn law_partition_names(base: Seq<char>, letter: char, number: Seq<char>, name: Seq<char>)
    requires
        is_number(number),
    ensures
        has_digit(base) ==> partition_name(base + seq!['p'] + number),
        'a' <= letter <= 'z' ==> partition_name("sd"@ + seq![letter] + number),
        'a' <= letter <= 'z' ==> partition_name("vd"@ + seq![letter] + number),
        'a' <= letter <= 'z' ==> partition_name("xvd"@ + seq![letter] + number),
        name.len() == 0 || !is_digit(name.last()) ==> !partition_name(name),
{
    let numbered = base + seq!['p'] + number;
    let at = base.len() as int;
    assert(numbered.skip(at + 1) =~= number);
    assert(numbered.take(at) =~= base);
    if has_digit(base) {
        assert(numbered_partition(numbered, at));
    }
    if 'a' <= letter <= 'z' {
        lemma_lettered("sd"@, letter, number);
        lemma_lettered("vd"@, letter, number);
        lemma_lettered("xvd"@, letter, number);
    }
    if name.len() == 0 || !is_digit(name.last()) {
        assert forall|i: int| !numbered_partition(name, i) by {
            if numbered_partition(name, i) {
                let rest = name.skip(i + 1);
                assert(is_digit(rest[rest.len() - 1]));
                assert(rest[rest.len() - 1] == name.last());
            }
        }
        assert forall|i: int| !lettered_partition(name, i) by {
            if lettered_partition(name, i) {
                let rest = name.skip(i);
                assert(is_digit(rest[rest.len() - 1]));
                assert(rest[rest.len() - 1] == name.last());
            }
        }
    }
}

proof fn lemma_lettered(prefix: Seq<char>, letter: char, number: Seq<char>)
    requires
        is_number(number),
        'a' <= letter <= 'z',
        prefix == "sd"@ || prefix == "vd"@ || prefix == "xvd"@,
    ensures
        partition_name(prefix + seq![letter] + number),
{
    let name = prefix + seq![letter] + number;
    let at = prefix.len() as int + 1;
    assert(name.skip(at) =~= number);
    assert(name.take(at) =~= prefix + seq![letter]);
    assert(name.take(at).take(prefix.len() as int) =~= prefix);
    assert(lettered_base(name.take(at), prefix));
    assert(lettered_partition(name, at));
}

/// An absolute path stands for its components; doubled slashes and slashes or
/// single dots at its end change nothing.
pub proof fn law_path_stands_for_its_components(parts: Seq<Seq<char>>)
    requires
        parts.len() > 0,
        forall|i: int|
            0 <= i < parts.len() ==> (#[trigger] parts[i]).len() > 0 && parts[i] != seq!['.']
                && unsplit(parts[i], Separator::Char('/')),
    ensures
        ({
            let path = seq!['/'] + joined(parts, seq!['/']);
            &&& path_identity(path) == (true, parts)
            &&& path_identity(seq!['/'] + path) == (true, parts)
            &&& path_identity(path.push('/')) == (true, parts)
            &&& path_identity(path.push('/').push('.')) == (true, parts)
        }),
{
    let sep = Separator::Char('/');
    let none = Seq::<char>::empty();
    let tail = joined(parts, seq!['/']);
    let path = seq!['/'] + tail;
    lemma_split_path(parts);
    lemma_pieces_unsplit(none, sep);
    lemma_pieces_joined(none, '/', tail, sep);
    assert(none.push('/') + tail =~= path);
    let split = seq![none] + parts;
    assert(pieces(path, sep) == split);
    assert(split[0].len() == 0);
    lemma_plain_components(none, parts);
    // One more slash in front.
    lemma_pieces_joined(none, '/', path, sep);
    assert(none.push('/') + path =~= seq!['/'] + path);
    let doubled = seq![none] + split;
    lemma_plain_components_front(split);
    // A slash behind.
    lemma_pieces_joined(path, '/', none, sep);
    assert(path.push('/') + none =~= path.push('/'));
    assert((split + seq![none]).drop_last() =~= split);
    assert(plain_components(split + seq![none]) == plain_components(split));
    // A dot behind.
    let dot = seq!['.'];
    lemma_pieces_unsplit(dot, sep);
    lemma_pieces_joined(path, '/', dot, sep);
    assert(path.push('/') + dot =~= path.push('/').push('.'));
    assert((split + seq![dot]).drop_last() =~= split);
    assert((split + seq![dot]).last() == seq!['.']);
    assert(plain_components(split + seq![dot]) == plain_components(split));
    assert(path.push('/')[0] == '/' && path.push('/').push('.')[0] == '/');
}

proof fn lemma_split_path(parts: Seq<Seq<char>>)
    requires
        parts.len() > 0,
        forall|i: int| 0 <= i < parts.len() ==> unsplit(#[trigger] parts[i], Separator::Char('/')),
    ensures
        pieces(joined(parts, seq!['/']), Separator::Char('/')) == parts,
    decreases parts.len(),
{
    let sep = Separator::Char('/');
    let last = parts.len() - 1;
    assert(unsplit(parts[last], sep));
    lemma_pieces_unsplit(parts[last], sep);
    if last == 0 {
        assert(parts =~= seq![parts[0]]);
    } else {
        let before = parts.drop_last();
        assert forall|i: int| 0 <= i < before.len() implies unsplit(#[trigger] before[i], sep) by {
            assert(before[i] == parts[i]);
        }
        lemma_split_path(before);
        let head = joined(before, seq!['/']);
        lemma_pieces_joined(head, '/', parts.last(), sep);
        assert(head + seq!['/'] + parts.last() =~= head.push('/') + parts.last());
        assert(before + seq![parts.last()] =~= parts);
    }
}

proof fn lemma_plain_components(first: Seq<char>, parts: Seq<Seq<char>>)
    requires
        first.len() == 0,
        forall|i: int|
            0 <= i < parts.len() ==> (#[trigger] parts[i]).len() > 0 && parts[i] != seq!['.'],
    ensures
        plain_components(seq![first] + parts) == parts,
    decreases parts.len(),
{
    let all = seq![first] + parts;
    if parts.len() == 0 {
        assert(all.drop_last() =~= Seq::<Seq<char>>::empty());
        assert(all.last() == first);
        assert(plain_components(all.drop_last()) =~= parts);
    } else {
        let before = parts.drop_last();
        assert forall|i: int| 0 <= i < before.len() implies (#[trigger] before[i]).len() > 0
            && before[i] != seq!['.'] by {
            assert(before[i] == parts[i]);
        }
        lemma_plain_components(first, before);
        assert(all.drop_last() =~= seq![first] + before);
        assert(all.last() == parts[parts.len() - 1]);
        assert(before.push(parts.last()) =~= parts);
    }
}

/// An empty component in front of another changes nothing.
proof fn lemma_plain_components_front(parts: Seq<Seq<char>>)
    requires
        parts.len() > 0,
        parts[0].len() == 0,
    ensures
        plain_components(seq![Seq::<char>::empty()] + parts) == plain_components(parts),
    decreases parts.len(),
{
    let none = Seq::<char>::empty();
    let all = seq![none] + parts;
    assert(all.drop_last() =~= seq![none] + parts.drop_last());
    assert(all.last() == parts.last());
    if parts.len() == 1 {
        assert(parts.drop_last() =~= Seq::<Seq<char>>::empty());
        assert(all.drop_last() =~= seq![none]);
        assert(seq![none].drop_last() =~= Seq::<Seq<char>>::empty());
        reveal_with_fuel(plain_components, 3);
        assert(plain_components(all) =~= plain_components(parts));
    } else {
        lemma_plain_components_front(parts.drop_last());
    }
}

} // verus!
