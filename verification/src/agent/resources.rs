//! What a machine offers: memory, cores, the disk that holds the agent's
//! working directory, and GPUs.
use vstd::prelude::*;
use crate::agent::types::{GpuInfo, HealthResponse, ResourceReport};
use crate::text::{chars_of, copy_str, span_views, split_on, split_spans, Span};

verus! {

/// Kibibytes to mebibytes, rounding down.
pub fn kb_to_mb(kb: u64) -> (mb: u64)
    ensures
        mb == kb / 1024,
{
    kb / 1024
}

/// Bytes to mebibytes, rounding down.
pub fn bytes_to_mb(bytes: u64) -> (mb: u64)
    ensures
        mb == bytes / 1048576,
{
    bytes / 1048576
}

/// The answer to `/ping` on an agent.
pub fn ping() -> (r: &'static str)
    ensures
        r@ == "what's up"@,
{
    "what's up"
}

/// The answer to `/health`.
pub fn health() -> (r: HealthResponse)
    ensures
        r.status@ == "ok"@,
{
    HealthResponse { status: "ok" }
}

/// The part of a path that names the root directory.
pub open spec fn root_part() -> Seq<char> {
    seq!['/']
}

/// The part of a relative path that names the current directory.
pub open spec fn current_part() -> Seq<char> {
    seq!['.']
}

/// A segment between separators that names a component: neither empty nor
/// the current directory.
pub open spec fn is_named(seg: Seq<char>) -> bool {
    seg.len() > 0 && seg != current_part()
}

/// The named segments among `segs`, in order.
pub open spec fn named_parts(segs: Seq<Seq<char>>) -> Seq<Seq<char>>
    decreases segs.len(),
{
    if segs.len() == 0 {
        Seq::empty()
    } else {
        let p = named_parts(segs.drop_last());
        if is_named(segs.last()) {
            p.push(segs.last())
        } else {
            p
        }
    }
}

/// The components of a Unix path, as `Path::components` gives them: the root
/// (written `/`) when the path is absolute, a leading current directory
/// (written `.`) when a relative path starts with one, then every segment
/// between separators that is neither empty nor `.`.
pub open spec fn path_parts(s: Seq<char>) -> Seq<Seq<char>> {
    let segs = split_on(s, '/');
    if s.len() > 0 && s[0] == '/' {
        seq![root_part()] + named_parts(segs.drop_first())
    } else if segs[0] == current_part() {
        seq![current_part()] + named_parts(segs.drop_first())
    } else {
        named_parts(segs)
    }
}

/// `path` lies under `base`: the components of `base` begin those of `path`
/// (`Path::starts_with`).
pub open spec fn path_starts_with(path: Seq<char>, base: Seq<char>) -> bool {
    let p = path_parts(path);
    let b = path_parts(base);
    b.len() <= p.len() && p.take(b.len() as int) == b
}

/// The texts of a list of character vectors.
pub open spec fn texts_view(v: Seq<Vec<char>>) -> Seq<Seq<char>> {
    v.map_values(|x: Vec<char>| x@)
}

/// Whether two character vectors hold the same characters.
fn same_chars(a: &Vec<char>, b: &Vec<char>) -> (r: bool)
    ensures
        r == (a@ == b@),
{
    if a.len() != b.len() {
        return false;
    }
    let mut i: usize = 0;
    while i < a.len()
        invariant
            i <= a.len() == b.len(),
            forall|j: int| 0 <= j < i ==> a@[j] == b@[j],
        decreases a.len() - i,
    {
        if a[i] != b[i] {
            return false;
        }
        i = i + 1;
    }
    assert(a@ =~= b@);
    true
}

/// The components of a path.
pub fn path_components(s: &str) -> (r: Vec<Vec<char>>)
    ensures
        texts_view(r@) == path_parts(s@),
{
    let v = chars_of(s);
    assert(v@.subrange(0, v@.len() as int) =~= s@);
    let spans = split_spans(&v, 0, v.len(), '/');
    let ghost segs = split_on(s@, '/');
    proof {
        crate::text::lemma_split_on_nonempty(s@, '/');
    }
    let mut parts: Vec<Vec<char>> = Vec::new();
    let first = &spans[0];
    let first_seg = chars_between(&v, first);
    let mut i: usize;
    if v.len() > 0 && v[0] == '/' {
        let mut root: Vec<char> = Vec::new();
        root.push('/');
        assert(root@ =~= root_part());
        parts.push(root);
        i = 1;
    } else if first_seg.len() == 1 && first_seg[0] == '.' {
        assert(first_seg@ =~= current_part());
        let mut cur: Vec<char> = Vec::new();
        cur.push('.');
        assert(cur@ =~= current_part());
        parts.push(cur);
        i = 1;
    } else {
        proof {
            if segs[0] == current_part() {
                assert(first_seg@ == segs[0]);
            }
        }
        i = 0;
    }
    let ghost start = i as int;
    let ghost head = texts_view(parts@);
    let ghost absolute = s@.len() > 0 && s@[0] == '/';
    proof {
        if absolute {
            assert(head =~= seq![root_part()]);
        } else if start == 1 {
            assert(head =~= seq![current_part()]);
        } else {
            assert(head =~= Seq::<Seq<char>>::empty());
        }
        assert(segs.drop_first() =~= segs.subrange(1, segs.len() as int));
        assert(segs =~= segs.subrange(0, segs.len() as int));
        assert(segs.subrange(start, start) =~= Seq::<Seq<char>>::empty());
        assert(head + named_parts(Seq::empty()) =~= head);
    }
    while i < spans.len()
        invariant
            start <= i <= spans.len(),
            start == 0 || start == 1,
            spans.len() >= 1,
            forall|j: int| 0 <= j < spans.len() ==> 0 <= #[trigger] spans@[j].start <= spans@[j].end <= v.len(),
            span_views(v@, spans@) == segs,
            segs == split_on(s@, '/'),
            texts_view(parts@) == head + named_parts(segs.subrange(start, i as int)),
            absolute == (s@.len() > 0 && s@[0] == '/'),
            absolute ==> start == 1 && head == seq![root_part()],
            !absolute && start == 1 ==> head == seq![current_part()] && segs[0] == current_part(),
            !absolute && start == 0 ==> head == Seq::<Seq<char>>::empty() && segs[0] != current_part(),
        decreases spans.len() - i,
    {
        let seg = chars_between(&v, &spans[i]);
        let ghost before = named_parts(segs.subrange(start, i as int));
        proof {
            assert(segs.subrange(start, i + 1).drop_last() =~= segs.subrange(start, i as int));
            assert(segs.subrange(start, i + 1).last() == seg@);
        }
        if seg.len() > 0 && !(seg.len() == 1 && seg[0] == '.') {
            proof {
                if seg@ == current_part() {
                    assert(seg@.len() == 1 && seg@[0] == '.');
                }
            }
            let ghost old_t = texts_view(parts@);
            let ghost sv = seg@;
            parts.push(seg);
            assert(texts_view(parts@) =~= old_t.push(sv));
            assert(texts_view(parts@) =~= head + before.push(sv));
        } else {
            proof {
                if seg@.len() > 0 {
                    assert(seg@ =~= current_part());
                }
            }
        }
        i = i + 1;
    }
    proof {
        if start == 1 {
            assert(segs.subrange(1, segs.len() as int) =~= segs.drop_first());
        } else {
            assert(segs.subrange(0, segs.len() as int) =~= segs);
        }
        if !absolute && start == 0 {
            assert(head + named_parts(segs) =~= named_parts(segs));
        }
    }
    parts
}

/// The characters that a span covers.
fn chars_between(v: &Vec<char>, sp: &Span) -> (r: Vec<char>)
    requires
        sp.start <= sp.end <= v.len(),
    ensures
        r@ == v@.subrange(sp.start as int, sp.end as int),
{
    let mut r: Vec<char> = Vec::new();
    let mut i = sp.start;
    while i < sp.end
        invariant
            sp.start <= i <= sp.end <= v.len(),
            r@ == v@.subrange(sp.start as int, i as int),
        decreases sp.end - i,
    {
        r.push(v[i]);
        assert(r@ =~= v@.subrange(sp.start as int, i + 1));
        i = i + 1;
    }
    r
}

/// Whether `path` lies under `base` (`Path::starts_with`).
pub fn starts_with_path(path: &str, base: &str) -> (r: bool)
    ensures
        r == path_starts_with(path@, base@),
{
    let p = path_components(path);
    let b = path_components(base);
    if b.len() > p.len() {
        return false;
    }
    let mut i: usize = 0;
    while i < b.len()
        invariant
            i <= b.len() <= p.len(),
            texts_view(p@) == path_parts(path@),
            texts_view(b@) == path_parts(base@),
            forall|j: int| 0 <= j < i ==> texts_view(p@)[j] == texts_view(b@)[j],
        decreases b.len() - i,
    {
        if !same_chars(&p[i], &b[i]) {
            assert(texts_view(p@).take(b.len() as int)[i as int] != texts_view(b@)[i as int]);
            return false;
        }
        i = i + 1;
    }
    assert(texts_view(p@).take(b.len() as int) =~= texts_view(b@));
    true
}

/// A mounted disk as the system lists it.
#[derive(Debug)]
pub struct DiskEntry {
    pub mount_point: String,
    pub available_bytes: u64,
    pub total_bytes: u64,
}

/// Bytes that UTF-8 takes for `c`.
pub open spec fn utf8_width(c: char) -> nat {
    let u = c as u32;
    if u < 0x80 {
        1
    } else if u < 0x800 {
        2
    } else if u < 0x10000 {
        3
    } else {
        4
    }
}

/// The length in bytes of the UTF-8 encoding of `s` (`str::len`).
pub open spec fn utf8_len(s: Seq<char>) -> nat
    decreases s.len(),
{
    if s.len() == 0 {
        0
    } else {
        utf8_width(s[0]) + utf8_len(s.drop_first())
    }
}

/// `utf8_len` is the length of vstd's UTF-8 encoding.
pub proof fn lemma_utf8_len_is_encoding_len(s: Seq<char>)
    ensures
        utf8_len(s) == vstd::utf8::encode_utf8(s).len(),
    decreases s.len(),
{
    if s.len() > 0 {
        lemma_utf8_len_is_encoding_len(s.drop_first());
        vstd::utf8::char_is_scalar(s[0]);
    }
}

proof fn lemma_utf8_len_push(s: Seq<char>, c: char)
    ensures
        utf8_len(s.push(c)) == utf8_len(s) + utf8_width(c),
    decreases s.len(),
{
    if s.len() > 0 {
        lemma_utf8_len_push(s.drop_first(), c);
        assert(s.push(c).drop_first() =~= s.drop_first().push(c));
        assert(s.push(c)[0] == s[0]);
    } else {
        assert(s.push(c).drop_first() =~= Seq::<char>::empty());
        assert(s.push(c)[0] == c);
        assert(utf8_len(s.push(c).drop_first()) == 0);
        assert(utf8_len(s) == 0);
    }
}

/// The length in bytes of the UTF-8 encoding of `s`.
pub fn utf8_length(s: &str) -> (n: u128)
    ensures
        n == utf8_len(s@),
{
    let v = chars_of(s);
    let mut n: u128 = 0;
    let mut i: usize = 0;
    while i < v.len()
        invariant
            i <= v.len(),
            v@ == s@,
            n == utf8_len(v@.take(i as int)),
            n <= 4 * i,
        decreases v.len() - i,
    {
        let u = v[i] as u32;
        let w: u128 = if u < 0x80 {
            1
        } else if u < 0x800 {
            2
        } else if u < 0x10000 {
            3
        } else {
            4
        };
        proof {
            assert(v@.take(i + 1) =~= v@.take(i as int).push(v@[i as int]));
            lemma_utf8_len_push(v@.take(i as int), v@[i as int]);
        }
        n = n + w;
        i = i + 1;
    }
    assert(v@.take(v.len() as int) =~= v@);
    n
}

/// The disk mounted at `d` holds `path`.
pub open spec fn holds(d: DiskEntry, path: Seq<char>) -> bool {
    path_starts_with(path, d.mount_point@)
}

/// The disk that holds `path`: among the disks whose mount point `path` lies
/// under, the first one whose mount point is longest in bytes.
pub fn disk_for_path(path: &str, disks: &Vec<DiskEntry>) -> (r: Option<usize>)
    ensures
        r is None ==> forall|j: int| 0 <= j < disks.len() ==> !holds(#[trigger] disks@[j], path@),
        r matches Some(i) ==> {
            &&& i < disks.len()
            &&& holds(disks@[i as int], path@)
            &&& forall|j: int|
                0 <= j < disks.len() && holds(#[trigger] disks@[j], path@) ==> utf8_len(disks@[j].mount_point@)
                    <= utf8_len(disks@[i as int].mount_point@)
            &&& forall|j: int|
                0 <= j < i && holds(#[trigger] disks@[j], path@) ==> utf8_len(disks@[j].mount_point@)
                    < utf8_len(disks@[i as int].mount_point@)
        },
{
    let mut best: Option<usize> = None;
    let mut best_len: u128 = 0;
    let mut k: usize = 0;
    while k < disks.len()
        invariant
            k <= disks.len(),
            best is None ==> forall|j: int| 0 <= j < k ==> !holds(#[trigger] disks@[j], path@),
            best matches Some(i) ==> {
                &&& i < k
                &&& holds(disks@[i as int], path@)
                &&& best_len == utf8_len(disks@[i as int].mount_point@)
                &&& forall|j: int|
                    0 <= j < k && holds(#[trigger] disks@[j], path@) ==> utf8_len(disks@[j].mount_point@)
                        <= best_len
                &&& forall|j: int|
                    0 <= j < i && holds(#[trigger] disks@[j], path@) ==> utf8_len(disks@[j].mount_point@)
                        < best_len
            },
        decreases disks.len() - k,
    {
        let d = &disks[k];
        if starts_with_path(path, d.mount_point.as_str()) {
            let len = utf8_length(d.mount_point.as_str());
            match best {
                None => {
                    best = Some(k);
                    best_len = len;
                },
                Some(_) => {
                    if len > best_len {
                        best = Some(k);
                        best_len = len;
                    }
                },
            }
        }
        k = k + 1;
    }
    best
}

/// Free and total mebibytes of the disk that holds `path` (see
/// `disk_for_path`), or zeros when no listed disk holds it.
pub fn disk_stats_for_path(path: &str, disks: &Vec<DiskEntry>) -> (r: (u64, u64))
    ensures
        match disk_for_path_spec(path@, disks@) {
            Some(i) => r == (disks@[i].available_bytes / 1048576, disks@[i].total_bytes / 1048576),
            None => r == (0u64, 0u64),
        },
{
    match disk_for_path(path, disks) {
        Some(i) => {
            proof {
                lemma_disk_choice_unique(path@, disks@, i as int);
            }
            (bytes_to_mb(disks[i].available_bytes), bytes_to_mb(disks[i].total_bytes))
        },
        None => {
            (0, 0)
        },
    }
}

/// The position that `disk_for_path` picks.
pub open spec fn is_disk_choice(path: Seq<char>, disks: Seq<DiskEntry>, i: int) -> bool {
    &&& 0 <= i < disks.len()
    &&& holds(disks[i], path)
    &&& forall|j: int|
        0 <= j < disks.len() && holds(#[trigger] disks[j], path) ==> utf8_len(disks[j].mount_point@)
            <= utf8_len(disks[i].mount_point@)
    &&& forall|j: int|
        0 <= j < i && holds(#[trigger] disks[j], path) ==> utf8_len(disks[j].mount_point@)
            < utf8_len(disks[i].mount_point@)
}

/// The disk that holds `path`, if any disk does.
pub open spec fn disk_for_path_spec(path: Seq<char>, disks: Seq<DiskEntry>) -> Option<int> {
    if exists|i: int| is_disk_choice(path, disks, i) {
        Some(choose|i: int| is_disk_choice(path, disks, i))
    } else {
        None
    }
}

/// At most one position meets `is_disk_choice`.
pub proof fn lemma_disk_choice_unique(path: Seq<char>, disks: Seq<DiskEntry>, i: int)
    requires
        is_disk_choice(path, disks, i),
    ensures
        disk_for_path_spec(path, disks) == Some(i),
{
    let c = choose|c: int| is_disk_choice(path, disks, c);
    assert(is_disk_choice(path, disks, c));
    if c < i {
        assert(holds(disks[c], path));
    } else if i < c {
        assert(holds(disks[i], path));
    }
}

/// The resource report of a machine: total and available memory (given in
/// bytes) in mebibytes, the number of cores, the disk that holds
/// `disk_path`, and the GPUs found.
pub fn collect_resources(
    disk_path: &str,
    total_memory: u64,
    available_memory: u64,
    cpu_cores: u64,
    disks: &Vec<DiskEntry>,
    gpu: Option<GpuInfo>,
) -> (r: ResourceReport)
    ensures
        r.ram_total_mb == total_memory / 1048576,
        r.ram_free_mb == available_memory / 1048576,
        r.cpu_cores == cpu_cores,
        match disk_for_path_spec(disk_path@, disks@) {
            Some(i) => r.disk_free_mb == disks@[i].available_bytes / 1048576 && r.disk_total_mb
                == disks@[i].total_bytes / 1048576,
            None => r.disk_free_mb == 0 && r.disk_total_mb == 0,
        },
        r.disk_path@ == disk_path@,
        r.gpu == gpu,
{
    let (disk_free_mb, disk_total_mb) = disk_stats_for_path(disk_path, disks);
    ResourceReport {
        ram_total_mb: bytes_to_mb(total_memory),
        ram_free_mb: bytes_to_mb(available_memory),
        cpu_cores,
        disk_free_mb,
        disk_total_mb,
        disk_path: copy_str(disk_path),
        gpu,
    }
}

} // verus!
