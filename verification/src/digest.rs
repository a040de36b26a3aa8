//! FNV-1a, the hash behind content digests and project identifiers.
use vstd::prelude::*;

use crate::text::{hex16, push_hex16, push_str, string_of};

verus! {

pub const FNV_OFFSET: u64 = 0xcbf29ce484222325;

pub const FNV_PRIME: u64 = 0x100000001b3;

/// FNV-1a over `bytes`, starting from `hash`.
pub open spec fn fnv(hash: u64, bytes: Seq<u8>) -> u64
    decreases bytes.len(),
{
    if bytes.len() == 0 {
        hash
    } else {
        ((fnv(hash, bytes.drop_last()) ^ (bytes.last() as u64)) as u64).wrapping_mul(FNV_PRIME)
    }
}

pub fn update_hash(hash: &mut u64, bytes: &[u8])
    ensures
        *final(hash) == fnv(*old(hash), bytes@),
{
    let ghost start = *hash;
    let mut i: usize = 0;
    while i < bytes.len()
        invariant
            i <= bytes@.len(),
            *hash == fnv(start, bytes@.take(i as int)),
        decreases bytes@.len() - i,
    {
        assert(bytes@.take(i + 1).drop_last() =~= bytes@.take(i as int));
        *hash = (*hash ^ (bytes[i] as u64)).wrapping_mul(FNV_PRIME);
        i = i + 1;
    }
    assert(bytes@.take(i as int) =~= bytes@);
}

/// `a` sorts before `b`: code point by code point, a prefix first. This is
/// the order of their UTF-8 bytes, which is how strings compare.
pub open spec fn name_lt(a: Seq<char>, b: Seq<char>) -> bool
    decreases a.len(),
{
    if a.len() == 0 {
        b.len() > 0
    } else if b.len() == 0 {
        false
    } else if a[0] != b[0] {
        a[0] < b[0]
    } else {
        name_lt(a.drop_first(), b.drop_first())
    }
}

pub(crate) fn name_less(a: &[char], b: &[char]) -> (r: bool)
    ensures
        r == name_lt(a@, b@),
{
    let mut i: usize = 0;
    assert(a@.skip(0) =~= a@);
    assert(b@.skip(0) =~= b@);
    while i < a.len() && i < b.len() && a[i] == b[i]
        invariant
            i <= a@.len(),
            i <= b@.len(),
            name_lt(a@, b@) == name_lt(a@.skip(i as int), b@.skip(i as int)),
        decreases a@.len() - i,
    {
        assert(a@.skip(i as int).drop_first() =~= a@.skip(i + 1));
        assert(b@.skip(i as int).drop_first() =~= b@.skip(i + 1));
        i = i + 1;
    }
    if i == a.len() {
        i < b.len()
    } else if i == b.len() {
        false
    } else {
        assert(a@.skip(i as int)[0] == a@[i as int]);
        assert(b@.skip(i as int)[0] == b@[i as int]);
        a[i] < b[i]
    }
}

/// `x` placed among `s`, which is in name order: after every name that
/// does not sort after it.
pub open spec fn insert_name(s: Seq<Seq<char>>, x: Seq<char>) -> Seq<Seq<char>>
    decreases s.len(),
{
    if s.len() == 0 {
        seq![x]
    } else if !name_lt(x, s.last()) {
        s.push(x)
    } else {
        insert_name(s.drop_last(), x).push(s.last())
    }
}

/// Names in ascending order, as a sort of strings puts them.
pub open spec fn names_in_order(s: Seq<Seq<char>>) -> Seq<Seq<char>>
    decreases s.len(),
{
    if s.len() == 0 {
        Seq::empty()
    } else {
        insert_name(names_in_order(s.drop_last()), s.last())
    }
}

fn insert_name_sorted(out: &mut Vec<String>, x: String)
    ensures
        crate::diagnosis::strings_view(final(out)@) == insert_name(crate::diagnosis::strings_view(old(out)@), x@),
{
    let ghost s = crate::diagnosis::strings_view(out@);
    let xc = crate::text::chars_of(x.as_str());
    let mut k: usize = out.len();
    assert(s.take(s.len() as int) =~= s);
    loop
        invariant
            k <= s.len(),
            s == crate::diagnosis::strings_view(out@),
            xc@ == x@,
            insert_name(s, x@) == insert_name(s.take(k as int), x@) + s.skip(k as int),
        ensures
            k <= s.len(),
            s == crate::diagnosis::strings_view(out@),
            insert_name(s, x@) == insert_name(s.take(k as int), x@) + s.skip(k as int),
            k == 0 || !name_lt(x@, s[k - 1]),
        decreases k,
    {
        if k == 0 {
            break;
        }
        let prev = crate::text::chars_of(out[k - 1].as_str());
        assert(s[k - 1] == out@[k - 1]@);
        if !name_less(xc.as_slice(), prev.as_slice()) {
            break;
        }
        proof {
            let t = s.take(k as int);
            assert(t.drop_last() =~= s.take(k - 1));
            assert(t.last() == s[k - 1]);
            assert(s.skip(k - 1) =~= seq![s[k - 1]] + s.skip(k as int));
            assert(insert_name(t.drop_last(), x@).push(t.last()) + s.skip(k as int) =~= insert_name(
                t.drop_last(),
                x@,
            ) + s.skip(k - 1));
        }
        k = k - 1;
    }
    proof {
        let t = s.take(k as int);
        if k > 0 {
            assert(t.last() == s[k - 1]);
        }
        assert(insert_name(t, x@) == t.push(x@));
    }
    let ghost before = out@;
    let ghost xv = x@;
    out.insert(k, x);
    assert(out@ =~= before.take(k as int).push(out@[k as int]) + before.skip(k as int));
    assert(crate::diagnosis::strings_view(out@) =~= s.take(k as int).push(xv) + s.skip(k as int));
}

/// Names put in ascending order.
pub fn sort_names(names: Vec<String>) -> (out: Vec<String>)
    ensures
        crate::diagnosis::strings_view(out@) == names_in_order(crate::diagnosis::strings_view(names@)),
{
    let ghost all = crate::diagnosis::strings_view(names@);
    let mut sorted: Vec<String> = Vec::new();
    let n = names.len();
    let mut k: usize = 0;
    assert(crate::diagnosis::strings_view(sorted@) =~= names_in_order(all.take(0)));
    while k < n
        invariant
            k <= n,
            n == names@.len(),
            all == crate::diagnosis::strings_view(names@),
            crate::diagnosis::strings_view(sorted@) == names_in_order(all.take(k as int)),
        decreases n - k,
    {
        assert(all.take(k + 1).drop_last() =~= all.take(k as int));
        assert(all.take(k + 1).last() == names@[k as int]@);
        let name = crate::text::copy_string(&names[k]);
        insert_name_sorted(&mut sorted, name);
        k = k + 1;
    }
    assert(all.take(k as int) =~= all);
    sorted
}

/// A named content: its name and its bytes.
pub open spec fn entry_view(e: (String, Vec<u8>)) -> (Seq<char>, Seq<u8>) {
    (e.0@, e.1@)
}

pub open spec fn entries_view(v: Seq<(String, Vec<u8>)>) -> Seq<(Seq<char>, Seq<u8>)> {
    v.map_values(|e: (String, Vec<u8>)| entry_view(e))
}

/// `x` placed among `s`, which is in name order: after every entry whose
/// name does not sort after it.
pub open spec fn insert_by_name(s: Seq<(Seq<char>, Seq<u8>)>, x: (Seq<char>, Seq<u8>)) -> Seq<(Seq<char>, Seq<u8>)>
    decreases s.len(),
{
    if s.len() == 0 {
        seq![x]
    } else if !name_lt(x.0, s.last().0) {
        s.push(x)
    } else {
        insert_by_name(s.drop_last(), x).push(s.last())
    }
}

/// Entries in name order; entries with the same name keep their order.
pub open spec fn by_name(s: Seq<(Seq<char>, Seq<u8>)>) -> Seq<(Seq<char>, Seq<u8>)>
    decreases s.len(),
{
    if s.len() == 0 {
        Seq::empty()
    } else {
        insert_by_name(by_name(s.drop_last()), s.last())
    }
}

/// The hash of named contents, each framed as name, `0`, contents, `0xff`.
pub open spec fn framed_hash(hash: u64, s: Seq<(Seq<char>, Seq<u8>)>) -> u64
    decreases s.len(),
{
    if s.len() == 0 {
        hash
    } else {
        let h = framed_hash(hash, s.drop_last());
        let e = s.last();
        fnv(fnv(fnv(fnv(h, vstd::utf8::encode_utf8(e.0)), seq![0u8]), e.1), seq![0xffu8])
    }
}

/// The digest of named contents: their framed hash in name order, so that
/// the order they come in does not matter.
pub open spec fn named_digest(entries: Seq<(Seq<char>, Seq<u8>)>) -> Seq<char> {
    "fnv1a64:"@ + hex16(framed_hash(FNV_OFFSET, by_name(entries)))
}

fn insert_sorted(out: &mut Vec<(String, Vec<u8>)>, x: (String, Vec<u8>))
    ensures
        entries_view(final(out)@) == insert_by_name(entries_view(old(out)@), entry_view(x)),
{
    let ghost s = entries_view(out@);
    let ghost xv = entry_view(x);
    let xc = crate::text::chars_of(x.0.as_str());
    let mut k: usize = out.len();
    assert(s.take(s.len() as int) =~= s);
    loop
        invariant
            k <= s.len(),
            s == entries_view(out@),
            xv == entry_view(x),
            xc@ == xv.0,
            insert_by_name(s, xv) == insert_by_name(s.take(k as int), xv) + s.skip(k as int),
        ensures
            k <= s.len(),
            s == entries_view(out@),
            insert_by_name(s, xv) == insert_by_name(s.take(k as int), xv) + s.skip(k as int),
            k == 0 || !name_lt(xv.0, s[k - 1].0),
        decreases k,
    {
        if k == 0 {
            break;
        }
        let prev = crate::text::chars_of(out[k - 1].0.as_str());
        assert(s[k - 1].0 == out@[k - 1].0@);
        if !name_less(xc.as_slice(), prev.as_slice()) {
            break;
        }
        proof {
            let t = s.take(k as int);
            assert(t.drop_last() =~= s.take(k - 1));
            assert(t.last() == s[k - 1]);
            assert(s.skip(k - 1) =~= seq![s[k - 1]] + s.skip(k as int));
            assert(insert_by_name(t.drop_last(), xv).push(t.last()) + s.skip(k as int) =~= insert_by_name(
                t.drop_last(),
                xv,
            ) + s.skip(k - 1));
        }
        k = k - 1;
    }
    proof {
        let t = s.take(k as int);
        if k > 0 {
            assert(t.last() == s[k - 1]);
        }
        assert(insert_by_name(t, xv) == t.push(xv));
    }
    let ghost before = out@;
    out.insert(k, x);
    assert(out@ =~= before.take(k as int).push(x) + before.skip(k as int));
    assert(entries_view(out@) =~= s.take(k as int).push(xv) + s.skip(k as int));
}

/// Digest a set of named contents with the framing of the tree digests.
/// Names are put in order first, so the digest does not depend on the order
/// the entries come in.
pub fn digest_named_contents(entries: Vec<(String, Vec<u8>)>) -> (out: String)
    ensures
        out@ == named_digest(entries_view(entries@)),
{
    let ghost all = entries_view(entries@);
    let mut sorted: Vec<(String, Vec<u8>)> = Vec::new();
    let n = entries.len();
    let mut k: usize = 0;
    assert(entries_view(sorted@) =~= by_name(all.take(0)));
    while k < n
        invariant
            k <= n,
            n == entries@.len(),
            all == entries_view(entries@),
            entries_view(sorted@) == by_name(all.take(k as int)),
        decreases n - k,
    {
        assert(all.take(k + 1).drop_last() =~= all.take(k as int));
        assert(all.take(k + 1).last() == entry_view(entries@[k as int]));
        let name = crate::text::copy_string(&entries[k].0);
        let mut bytes: Vec<u8> = Vec::new();
        let mut j: usize = 0;
        while j < entries[k].1.len()
            invariant
                k < n == entries@.len(),
                j <= entries@[k as int].1@.len(),
                bytes@ == entries@[k as int].1@.take(j as int),
            decreases entries@[k as int].1@.len() - j,
        {
            bytes.push(entries[k].1[j]);
            assert(entries@[k as int].1@.take(j + 1) =~= entries@[k as int].1@.take(j as int).push(
                entries@[k as int].1@[j as int],
            ));
            j = j + 1;
        }
        assert(entries@[k as int].1@.take(j as int) =~= entries@[k as int].1@);
        insert_sorted(&mut sorted, (name, bytes));
        k = k + 1;
    }
    assert(all.take(k as int) =~= all);
    let ghost sv = entries_view(sorted@);
    let mut hash: u64 = FNV_OFFSET;
    let mut i: usize = 0;
    while i < sorted.len()
        invariant
            i <= sorted@.len(),
            sv == entries_view(sorted@),
            hash == framed_hash(FNV_OFFSET, sv.take(i as int)),
        decreases sorted@.len() - i,
    {
        assert(sv.take(i + 1).drop_last() =~= sv.take(i as int));
        assert(sv.take(i + 1).last() == entry_view(sorted@[i as int]));
        update_hash(&mut hash, sorted[i].0.as_str().as_bytes());
        let zero: [u8; 1] = [0u8];
        assert(zero@ =~= seq![0u8]);
        update_hash(&mut hash, &zero);
        update_hash(&mut hash, sorted[i].1.as_slice());
        let ff: [u8; 1] = [0xffu8];
        assert(ff@ =~= seq![0xffu8]);
        update_hash(&mut hash, &ff);
        i = i + 1;
    }
    assert(sv.take(i as int) =~= sv);
    let mut out: Vec<char> = Vec::new();
    push_str(&mut out, "fnv1a64:");
    push_hex16(&mut out, hash);
    string_of(out.as_slice())
}

// ------------------------------------------------------- tree digests

/// One file of a tree as its digest reads it: its path relative to the
/// tree's root with `/` between components, the target of a symbolic link
/// where it is one, and its contents (`None` where the file vanished before
/// it could be read).
#[derive(Debug, Clone)]
pub struct TreeFile {
    pub relative: String,
    pub symlink_target: Option<String>,
    pub contents: Option<Vec<u8>>,
}

/// Component sequences in path order: component by component, a prefix
/// first.
pub open spec fn components_lt(a: Seq<Seq<char>>, b: Seq<Seq<char>>) -> bool
    decreases a.len(),
{
    if a.len() == 0 {
        b.len() > 0
    } else if b.len() == 0 {
        false
    } else if a[0] != b[0] {
        name_lt(a[0], b[0])
    } else {
        components_lt(a.drop_first(), b.drop_first())
    }
}

/// `a` sorts before `b` as paths do: by their components.
pub open spec fn path_lt(a: Seq<char>, b: Seq<char>) -> bool {
    components_lt(crate::text::split(a, '/'), crate::text::split(b, '/'))
}

fn path_less(a: &str, b: &str) -> (r: bool)
    ensures
        r == path_lt(a@, b@),
{
    let ac = crate::text::chars_of(a);
    let bc = crate::text::chars_of(b);
    let x = crate::text::split_exec(ac.as_slice(), '/');
    let y = crate::text::split_exec(bc.as_slice(), '/');
    let ghost xs = crate::text::views(x@);
    let ghost ys = crate::text::views(y@);
    let mut i: usize = 0;
    assert(xs.skip(0) =~= xs);
    assert(ys.skip(0) =~= ys);
    while i < x.len() && i < y.len() && crate::text::chars_eq(x[i].as_slice(), y[i].as_slice())
        invariant
            i <= x@.len(),
            i <= y@.len(),
            xs == crate::text::views(x@),
            ys == crate::text::views(y@),
            path_lt(a@, b@) == components_lt(xs.skip(i as int), ys.skip(i as int)),
        decreases x@.len() - i,
    {
        assert(xs.skip(i as int).drop_first() =~= xs.skip(i + 1));
        assert(ys.skip(i as int).drop_first() =~= ys.skip(i + 1));
        assert(xs.skip(i as int)[0] == xs[i as int]);
        assert(ys.skip(i as int)[0] == ys[i as int]);
        i = i + 1;
    }
    if i == x.len() {
        i < y.len()
    } else if i == y.len() {
        false
    } else {
        assert(xs.skip(i as int)[0] == x@[i as int]@);
        assert(ys.skip(i as int)[0] == y@[i as int]@);
        name_less(x[i].as_slice(), y[i].as_slice())
    }
}

/// `x` placed among `s`, which is in path order: after every file whose
/// path does not sort after its own.
pub open spec fn insert_by_path(s: Seq<TreeFile>, x: TreeFile) -> Seq<TreeFile>
    decreases s.len(),
{
    if s.len() == 0 {
        seq![x]
    } else if !path_lt(x.relative@, s.last().relative@) {
        s.push(x)
    } else {
        insert_by_path(s.drop_last(), x).push(s.last())
    }
}

/// Files in path order.
pub open spec fn by_path(s: Seq<TreeFile>) -> Seq<TreeFile>
    decreases s.len(),
{
    if s.len() == 0 {
        Seq::empty()
    } else {
        insert_by_path(by_path(s.drop_last()), s.last())
    }
}

/// The hash of a tree's files, each framed as its path, for a link `1` and
/// its target, `0`, then its contents and `0xff` where it could be read.
pub open spec fn tree_hash(hash: u64, s: Seq<TreeFile>) -> u64
    decreases s.len(),
{
    if s.len() == 0 {
        hash
    } else {
        let e = s.last();
        let h = fnv(tree_hash(hash, s.drop_last()), vstd::utf8::encode_utf8(e.relative@));
        let linked = match e.symlink_target {
            Some(t) => fnv(fnv(h, seq![1u8]), vstd::utf8::encode_utf8(t@)),
            None => h,
        };
        let framed = fnv(linked, seq![0u8]);
        match e.contents {
            Some(c) => fnv(fnv(framed, c@), seq![0xffu8]),
            None => framed,
        }
    }
}

/// A tree's digest: the hash of its files in path order.
pub open spec fn tree_digest_spec(files: Seq<TreeFile>) -> Seq<char> {
    "fnv1a64:"@ + hex16(tree_hash(FNV_OFFSET, by_path(files)))
}

fn insert_file_sorted(out: &mut Vec<TreeFile>, x: TreeFile)
    ensures
        final(out)@ == insert_by_path(old(out)@, x),
{
    let ghost s = out@;
    let mut k: usize = out.len();
    assert(s.take(s.len() as int) =~= s);
    loop
        invariant
            k <= s.len(),
            s == out@,
            insert_by_path(s, x) == insert_by_path(s.take(k as int), x) + s.skip(k as int),
        ensures
            k <= s.len(),
            s == out@,
            insert_by_path(s, x) == insert_by_path(s.take(k as int), x) + s.skip(k as int),
            k == 0 || !path_lt(x.relative@, s[k - 1].relative@),
        decreases k,
    {
        if k == 0 {
            break;
        }
        if !path_less(x.relative.as_str(), out[k - 1].relative.as_str()) {
            break;
        }
        proof {
            let t = s.take(k as int);
            assert(t.drop_last() =~= s.take(k - 1));
            assert(t.last() == s[k - 1]);
            assert(s.skip(k - 1) =~= seq![s[k - 1]] + s.skip(k as int));
            assert(insert_by_path(t.drop_last(), x).push(t.last()) + s.skip(k as int) =~= insert_by_path(
                t.drop_last(),
                x,
            ) + s.skip(k - 1));
        }
        k = k - 1;
    }
    proof {
        let t = s.take(k as int);
        if k > 0 {
            assert(t.last() == s[k - 1]);
        }
        assert(insert_by_path(t, x) == t.push(x));
    }
    let ghost xv = x;
    out.insert(k, x);
    assert(out@ =~= s.take(k as int).push(xv) + s.skip(k as int));
}

/// Digest a tree from its files: put them in path order, then hash each
/// file's path, link target and contents.
pub fn tree_digest(files: Vec<TreeFile>) -> (out: String)
    ensures
        out@ == tree_digest_spec(files@),
{
    let ghost all = files@;
    let n = files.len();
    let mut rest = files;
    let mut sorted: Vec<TreeFile> = Vec::new();
    let mut k: usize = 0;
    assert(sorted@ =~= by_path(all.take(0)));
    while rest.len() > 0
        invariant
            k <= all.len(),
            all.len() == n,
            rest@ == all.skip(k as int),
            sorted@ == by_path(all.take(k as int)),
        decreases rest@.len(),
    {
        assert(all.take(k + 1).drop_last() =~= all.take(k as int));
        assert(rest@[0] == all[k as int]);
        let x = rest.remove(0);
        assert(rest@ =~= all.skip(k + 1));
        assert(all.take(k + 1).last() == x);
        insert_file_sorted(&mut sorted, x);
        k = k + 1;
    }
    assert(all.take(k as int) =~= all);
    let ghost sv = sorted@;
    let mut hash: u64 = FNV_OFFSET;
    let mut i: usize = 0;
    while i < sorted.len()
        invariant
            i <= sorted@.len(),
            sv == sorted@,
            hash == tree_hash(FNV_OFFSET, sv.take(i as int)),
        decreases sorted@.len() - i,
    {
        assert(sv.take(i + 1).drop_last() =~= sv.take(i as int));
        assert(sv.take(i + 1).last() == sorted@[i as int]);
        let f = &sorted[i];
        update_hash(&mut hash, f.relative.as_str().as_bytes());
        match &f.symlink_target {
            Some(t) => {
                let one: [u8; 1] = [1u8];
                assert(one@ =~= seq![1u8]);
                update_hash(&mut hash, &one);
                update_hash(&mut hash, t.as_str().as_bytes());
            },
            None => {},
        }
        let zero: [u8; 1] = [0u8];
        assert(zero@ =~= seq![0u8]);
        update_hash(&mut hash, &zero);
        match &f.contents {
            Some(c) => {
                update_hash(&mut hash, c.as_slice());
                let ff: [u8; 1] = [0xffu8];
                assert(ff@ =~= seq![0xffu8]);
                update_hash(&mut hash, &ff);
            },
            None => {},
        }
        i = i + 1;
    }
    assert(sv.take(i as int) =~= sv);
    let mut out: Vec<char> = Vec::new();
    push_str(&mut out, "fnv1a64:");
    push_hex16(&mut out, hash);
    string_of(out.as_slice())
}

// ------------------------------------------------------- walking trees

/// What walking a tree found at one path.
#[derive(Debug, Clone)]
pub enum TreeEntryKind {
    /// A regular file, with its contents where it could still be read.
    File { contents: Option<Vec<u8>> },
    /// A symbolic link to a file: the link's target and the file's contents.
    LinkToFile { target: String, contents: Option<Vec<u8>> },
    /// A symbolic link to a directory.
    LinkToDirectory,
    /// A symbolic link whose target could not be read, and why.
    UnreadableLink { error: String },
    /// A socket, a FIFO, a device: anything but a file, a directory or a
    /// link.
    Special,
}

/// One entry below a tree's root: its path relative to the root, with `/`
/// between components, and what it is. Directories are walked into, not
/// listed.
#[derive(Debug, Clone)]
pub struct TreeEntry {
    pub relative: String,
    pub kind: TreeEntryKind,
}

/// The entry lies under, or is, one of the `excluded` names at the root.
pub open spec fn excluded_at_root(relative: Seq<char>, excluded: Seq<Seq<char>>) -> bool {
    excluded.contains(crate::text::split(relative, '/')[0])
}

/// Whether `relative` lies under one of the `excluded` names at the root.
pub fn is_excluded_at_root(relative: &str, excluded: &Vec<String>) -> (b: bool)
    ensures
        b == excluded_at_root(relative@, crate::diagnosis::strings_view(excluded@)),
{
    let rel = crate::text::chars_of(relative);
    let parts = crate::text::split_exec(rel.as_slice(), '/');
    proof {
        lemma_split_nonempty(relative@, '/');
    }
    let first = &parts[0];
    assert(first@ == crate::text::split(relative@, '/')[0]);
    let ghost ex = crate::diagnosis::strings_view(excluded@);
    let mut k: usize = 0;
    while k < excluded.len()
        invariant
            k <= excluded@.len(),
            ex == crate::diagnosis::strings_view(excluded@),
            first@ == crate::text::split(relative@, '/')[0],
            forall|j: int| 0 <= j < k ==> ex[j] != first@,
        decreases excluded@.len() - k,
    {
        if crate::text::chars_eq_str(first.as_slice(), excluded[k].as_str()) {
            assert(ex[k as int] == first@);
            assert(ex.contains(first@));
            return true;
        }
        k = k + 1;
    }
    false
}

/// The file an entry is hashed as: a regular file as itself, a link to a
/// file through its target; anything else is not hashed.
pub open spec fn tree_file_of(e: TreeEntry) -> Option<TreeFile> {
    match e.kind {
        TreeEntryKind::File { contents } => Some(TreeFile { relative: e.relative, symlink_target: None, contents }),
        TreeEntryKind::LinkToFile { target, contents } => Some(
            TreeFile { relative: e.relative, symlink_target: Some(target), contents },
        ),
        _ => None,
    }
}

/// Why a learner project's entry stops its digest: a link to a directory,
/// or a link whose target cannot be read.
pub open spec fn project_entry_problem(root: Seq<char>, e: TreeEntry) -> Option<Seq<char>> {
    let path = crate::paths::path_join(root, e.relative@);
    match e.kind {
        TreeEntryKind::LinkToDirectory => Some(
            "cannot create an integrity digest: "@ + path
                + " is a symbolic link to a directory.\nCopy the directory into the project, remove the link, or add its name to integrity.exclude in .deltaforge/config.toml."@,
        ),
        TreeEntryKind::UnreadableLink { error } => Some(
            "cannot create an integrity digest: "@ + path
                + " is a symbolic link with an unreadable target.\nRemove or repair the link.: "@ + error@,
        ),
        _ => None,
    }
}

/// Why a pack's entry stops its digest: a pack is self-contained, so any
/// link and any special file is refused.
pub open spec fn pack_entry_problem(root: Seq<char>, e: TreeEntry) -> Option<Seq<char>> {
    let path = crate::paths::path_join(root, e.relative@);
    match e.kind {
        TreeEntryKind::File { .. } => None,
        TreeEntryKind::Special => Some("pack content must be self-contained: "@ + path + " is a special file"@),
        _ => Some(
            "pack content must be self-contained: "@ + path
                + " is a symbolic link. Replace it with a regular copy of its target."@,
        ),
    }
}

pub open spec fn missing_root(root: Seq<char>) -> Seq<char> {
    "cannot digest missing directory "@ + root
}

/// The first problem among a project's entries, in walk order, outside
/// the excluded names.
pub open spec fn project_tree_problem(root: Seq<char>, s: Seq<TreeEntry>, excluded: Seq<Seq<char>>) -> Option<Seq<char>>
    decreases s.len(),
{
    if s.len() == 0 {
        None
    } else if !excluded_at_root(s[0].relative@, excluded) && project_entry_problem(root, s[0]) is Some {
        project_entry_problem(root, s[0])
    } else {
        project_tree_problem(root, s.drop_first(), excluded)
    }
}

/// The files a project's digest hashes: those outside the excluded names,
/// links to files through their targets; special files are passed over.
pub open spec fn project_files(s: Seq<TreeEntry>, excluded: Seq<Seq<char>>) -> Seq<TreeFile>
    decreases s.len(),
{
    if s.len() == 0 {
        Seq::empty()
    } else {
        let p = project_files(s.drop_last(), excluded);
        if excluded_at_root(s.last().relative@, excluded) {
            p
        } else {
            match tree_file_of(s.last()) {
                Some(f) => p.push(f),
                None => p,
            }
        }
    }
}

/// The first problem among a pack's entries, in walk order.
pub open spec fn pack_tree_problem(root: Seq<char>, s: Seq<TreeEntry>) -> Option<Seq<char>>
    decreases s.len(),
{
    if s.len() == 0 {
        None
    } else if pack_entry_problem(root, s[0]) is Some {
        pack_entry_problem(root, s[0])
    } else {
        pack_tree_problem(root, s.drop_first())
    }
}

/// The files of a pack: every entry, each a regular file.
pub open spec fn pack_files(s: Seq<TreeEntry>) -> Seq<TreeFile>
    decreases s.len(),
{
    if s.len() == 0 {
        Seq::empty()
    } else {
        match tree_file_of(s.last()) {
            Some(f) => pack_files(s.drop_last()).push(f),
            None => pack_files(s.drop_last()),
        }
    }
}

fn project_entry_error(root: &str, e: &TreeEntry) -> (r: Option<String>)
    ensures
        match project_entry_problem(root@, *e) {
            Some(p) => r matches Some(x) && x@ == p,
            None => r is None,
        },
{
    match &e.kind {
        TreeEntryKind::LinkToDirectory => {
            let path = crate::paths::join_path(root, e.relative.as_str());
            let mut m: Vec<char> = Vec::new();
            push_str(&mut m, "cannot create an integrity digest: ");
            push_str(&mut m, path.as_str());
            push_str(
                &mut m,
                " is a symbolic link to a directory.\nCopy the directory into the project, remove the link, or add its name to integrity.exclude in .deltaforge/config.toml.",
            );
            Some(string_of(m.as_slice()))
        },
        TreeEntryKind::UnreadableLink { error } => {
            let path = crate::paths::join_path(root, e.relative.as_str());
            let mut m: Vec<char> = Vec::new();
            push_str(&mut m, "cannot create an integrity digest: ");
            push_str(&mut m, path.as_str());
            push_str(&mut m, " is a symbolic link with an unreadable target.\nRemove or repair the link.: ");
            push_str(&mut m, error.as_str());
            Some(string_of(m.as_slice()))
        },
        _ => None,
    }
}

fn pack_entry_error(root: &str, e: &TreeEntry) -> (r: Option<String>)
    ensures
        match pack_entry_problem(root@, *e) {
            Some(p) => r matches Some(x) && x@ == p,
            None => r is None,
        },
{
    match &e.kind {
        TreeEntryKind::File { .. } => None,
        TreeEntryKind::Special => {
            let path = crate::paths::join_path(root, e.relative.as_str());
            let mut m: Vec<char> = Vec::new();
            push_str(&mut m, "pack content must be self-contained: ");
            push_str(&mut m, path.as_str());
            push_str(&mut m, " is a special file");
            Some(string_of(m.as_slice()))
        },
        _ => {
            let path = crate::paths::join_path(root, e.relative.as_str());
            let mut m: Vec<char> = Vec::new();
            push_str(&mut m, "pack content must be self-contained: ");
            push_str(&mut m, path.as_str());
            push_str(&mut m, " is a symbolic link. Replace it with a regular copy of its target.");
            Some(string_of(m.as_slice()))
        },
    }
}

fn into_tree_file(e: TreeEntry) -> (r: Option<TreeFile>)
    ensures
        r == tree_file_of(e),
{
    match e.kind {
        TreeEntryKind::File { contents } => Some(TreeFile { relative: e.relative, symlink_target: None, contents }),
        TreeEntryKind::LinkToFile { target, contents } => Some(
            TreeFile { relative: e.relative, symlink_target: Some(target), contents },
        ),
        _ => None,
    }
}

/// The files of a learner project's tree, from the entries its walk found
/// in walk order: the root must be a directory; entries under an excluded
/// name at the root are left out; a link to a directory, or one whose
/// target cannot be read, stops the digest at the first such entry;
/// special files are passed over; links to files are hashed through their
/// targets.
pub fn project_tree_files(root: &str, root_is_dir: bool, entries: Vec<TreeEntry>, excluded: &Vec<String>) -> (r: Result<Vec<TreeFile>, String>)
    ensures
        !root_is_dir ==> (r matches Err(e) && e@ == missing_root(root@)),
        root_is_dir ==> match project_tree_problem(root@, entries@, crate::diagnosis::strings_view(excluded@)) {
            Some(p) => r matches Err(e) && e@ == p,
            None => r matches Ok(files) && files@ == project_files(entries@, crate::diagnosis::strings_view(excluded@)),
        },
{
    if !root_is_dir {
        let mut m: Vec<char> = Vec::new();
        push_str(&mut m, "cannot digest missing directory ");
        push_str(&mut m, root);
        return Err(string_of(m.as_slice()));
    }
    let ghost all = entries@;
    let ghost ex = crate::diagnosis::strings_view(excluded@);
    let n = entries.len();
    let mut rest = entries;
    let mut files: Vec<TreeFile> = Vec::new();
    let mut i: usize = 0;
    assert(all.skip(0) =~= all);
    while rest.len() > 0
        invariant
            i <= all.len(),
            all.len() == n,
            all == entries@,
            root_is_dir,
            ex == crate::diagnosis::strings_view(excluded@),
            rest@ == all.skip(i as int),
            project_tree_problem(root@, all, ex) == project_tree_problem(root@, all.skip(i as int), ex),
            files@ == project_files(all.take(i as int), ex),
        decreases rest@.len(),
    {
        let ghost tail = all.skip(i as int);
        assert(tail[0] == all[i as int]);
        assert(tail.drop_first() =~= all.skip(i + 1));
        assert(all.take(i + 1).drop_last() =~= all.take(i as int));
        assert(all.take(i + 1).last() == all[i as int]);
        let e = rest.remove(0);
        assert(rest@ =~= all.skip(i + 1));
        let skip = is_excluded_at_root(e.relative.as_str(), excluded);
        if !skip {
            if let Some(problem) = project_entry_error(root, &e) {
                return Err(problem);
            }
            if let Some(f) = into_tree_file(e) {
                files.push(f);
            }
        }
        i = i + 1;
    }
    assert(all.take(i as int) =~= all);
    Ok(files)
}

/// The files of a pack's tree, from the entries its walk found in walk
/// order: the root must be a directory, and a pack is self-contained, so
/// the first link or special file stops the digest; otherwise every entry
/// is a file and all are hashed.
pub fn pack_tree_files(root: &str, root_is_dir: bool, entries: Vec<TreeEntry>) -> (r: Result<Vec<TreeFile>, String>)
    ensures
        !root_is_dir ==> (r matches Err(e) && e@ == missing_root(root@)),
        root_is_dir ==> match pack_tree_problem(root@, entries@) {
            Some(p) => r matches Err(e) && e@ == p,
            None => r matches Ok(files) && files@ == pack_files(entries@),
        },
{
    if !root_is_dir {
        let mut m: Vec<char> = Vec::new();
        push_str(&mut m, "cannot digest missing directory ");
        push_str(&mut m, root);
        return Err(string_of(m.as_slice()));
    }
    let ghost all = entries@;
    let n = entries.len();
    let mut rest = entries;
    let mut files: Vec<TreeFile> = Vec::new();
    let mut i: usize = 0;
    assert(all.skip(0) =~= all);
    while rest.len() > 0
        invariant
            i <= all.len(),
            all.len() == n,
            all == entries@,
            root_is_dir,
            rest@ == all.skip(i as int),
            pack_tree_problem(root@, all) == pack_tree_problem(root@, all.skip(i as int)),
            files@ == pack_files(all.take(i as int)),
        decreases rest@.len(),
    {
        let ghost tail = all.skip(i as int);
        assert(tail[0] == all[i as int]);
        assert(tail.drop_first() =~= all.skip(i + 1));
        assert(all.take(i + 1).drop_last() =~= all.take(i as int));
        assert(all.take(i + 1).last() == all[i as int]);
        let e = rest.remove(0);
        assert(rest@ =~= all.skip(i + 1));
        if let Some(problem) = pack_entry_error(root, &e) {
            return Err(problem);
        }
        if let Some(f) = into_tree_file(e) {
            files.push(f);
        }
        i = i + 1;
    }
    assert(all.take(i as int) =~= all);
    Ok(files)
}

/// The entries of a project that its digest looks at: those outside the
/// excluded names at the root, in walk order.
pub open spec fn counted_entries(s: Seq<TreeEntry>, excluded: Seq<Seq<char>>) -> Seq<TreeEntry>
    decreases s.len(),
{
    if s.len() == 0 {
        Seq::empty()
    } else {
        (if excluded_at_root(s[0].relative@, excluded) {
            Seq::empty()
        } else {
            seq![s[0]]
        }) + counted_entries(s.drop_first(), excluded)
    }
}

proof fn lemma_counted_entries_last(s: Seq<TreeEntry>, excluded: Seq<Seq<char>>)
    requires
        s.len() > 0,
    ensures
        counted_entries(s, excluded) == counted_entries(s.drop_last(), excluded) + (if excluded_at_root(
            s.last().relative@,
            excluded,
        ) {
            Seq::<TreeEntry>::empty()
        } else {
            seq![s.last()]
        }),
    decreases s.len(),
{
    if s.len() == 1 {
        assert(s.drop_last() =~= Seq::<TreeEntry>::empty());
        assert(s.drop_first() =~= Seq::<TreeEntry>::empty());
        assert(s[0] == s.last());
    } else {
        lemma_counted_entries_last(s.drop_first(), excluded);
        assert(s.drop_first().drop_last() =~= s.drop_last().drop_first());
        assert(s.drop_first().last() == s.last());
        assert(s.drop_last()[0] == s[0]);
    }
}

proof fn lemma_files_of_counted(s: Seq<TreeEntry>, excluded: Seq<Seq<char>>)
    ensures
        project_files(s, excluded) == project_files(counted_entries(s, excluded), excluded),
    decreases s.len(),
{
    if s.len() > 0 {
        lemma_files_of_counted(s.drop_last(), excluded);
        lemma_counted_entries_last(s, excluded);
        let c = counted_entries(s.drop_last(), excluded);
        if !excluded_at_root(s.last().relative@, excluded) {
            let cs = c + seq![s.last()];
            assert(cs.drop_last() =~= c);
            assert(cs.last() == s.last());
        } else {
            assert(c + Seq::<TreeEntry>::empty() =~= c);
        }
    }
}

proof fn lemma_problem_of_counted(root: Seq<char>, s: Seq<TreeEntry>, excluded: Seq<Seq<char>>)
    ensures
        project_tree_problem(root, s, excluded) == project_tree_problem(root, counted_entries(s, excluded), excluded),
    decreases s.len(),
{
    if s.len() > 0 {
        lemma_problem_of_counted(root, s.drop_first(), excluded);
        let rest = counted_entries(s.drop_first(), excluded);
        if excluded_at_root(s[0].relative@, excluded) {
            assert(Seq::<TreeEntry>::empty() + rest =~= rest);
        } else {
            let c = seq![s[0]] + rest;
            assert(c[0] == s[0]);
            assert(c.drop_first() =~= rest);
        }
    }
}

/// What lies under the excluded names at a project's root never counts:
/// two walks that agree on every other entry give the same files, the same
/// refusal and so the same digest, however the excluded entries differ.
/// Only the first path component is compared with the excluded names, so
/// an entry deeper down that happens to share such a name still counts.
pub proof fn law_excluded_entries_never_count(
    root: Seq<char>,
    p: Seq<TreeEntry>,
    q: Seq<TreeEntry>,
    excluded: Seq<Seq<char>>,
)
    requires
        counted_entries(p, excluded) == counted_entries(q, excluded),
    ensures
        project_tree_problem(root, p, excluded) == project_tree_problem(root, q, excluded),
        project_files(p, excluded) == project_files(q, excluded),
        tree_digest_spec(project_files(p, excluded)) == tree_digest_spec(project_files(q, excluded)),
{
    lemma_files_of_counted(p, excluded);
    lemma_files_of_counted(q, excluded);
    lemma_problem_of_counted(root, p, excluded);
    lemma_problem_of_counted(root, q, excluded);
}

// ------------------------------------------------------- order of names

proof fn lemma_lt_irreflexive(a: Seq<char>)
    ensures
        !name_lt(a, a),
    decreases a.len(),
{
    if a.len() > 0 {
        lemma_lt_irreflexive(a.drop_first());
    }
}

proof fn lemma_lt_transitive(a: Seq<char>, b: Seq<char>, c: Seq<char>)
    requires
        name_lt(a, b),
        name_lt(b, c),
    ensures
        name_lt(a, c),
    decreases a.len(),
{
    if a.len() > 0 && b.len() > 0 && c.len() > 0 && a[0] == b[0] && b[0] == c[0] {
        lemma_lt_transitive(a.drop_first(), b.drop_first(), c.drop_first());
    }
}

proof fn lemma_lt_total(a: Seq<char>, b: Seq<char>)
    requires
        a != b,
    ensures
        name_lt(a, b) || name_lt(b, a),
    decreases a.len(),
{
    if a.len() > 0 && b.len() > 0 && a[0] == b[0] {
        if a.drop_first() == b.drop_first() {
            assert(a =~= seq![a[0]] + a.drop_first());
            assert(b =~= seq![b[0]] + b.drop_first());
        }
        lemma_lt_total(a.drop_first(), b.drop_first());
    } else if a.len() == 0 && b.len() == 0 {
        assert(a =~= b);
    }
}

/// `x` goes before `y` when its name does not come after `y`'s.
proof fn lemma_lt_through(x: Seq<char>, e: Seq<char>, y: Seq<char>)
    requires
        name_lt(x, e),
        !name_lt(y, e),
    ensures
        name_lt(x, y),
{
    if y != e {
        lemma_lt_total(y, e);
        lemma_lt_transitive(x, e, y);
    }
}

/// Inserting two differently named entries gives the same order whichever
/// goes in first.
proof fn lemma_insert_commutes(s: Seq<(Seq<char>, Seq<u8>)>, x: (Seq<char>, Seq<u8>), y: (Seq<char>, Seq<u8>))
    requires
        x.0 != y.0,
    ensures
        insert_by_name(insert_by_name(s, x), y) == insert_by_name(insert_by_name(s, y), x),
    decreases s.len(),
{
    lemma_lt_total(x.0, y.0);
    if name_lt(x.0, y.0) {
        lemma_lt_transitive_not(y.0, x.0);
    } else {
        lemma_lt_transitive_not(x.0, y.0);
    }
    if s.len() == 0 {
        assert(seq![x].drop_last() =~= Seq::<(Seq<char>, Seq<u8>)>::empty());
        assert(seq![y].drop_last() =~= Seq::<(Seq<char>, Seq<u8>)>::empty());
        assert(insert_by_name(Seq::<(Seq<char>, Seq<u8>)>::empty(), x) == seq![x]);
        assert(insert_by_name(Seq::<(Seq<char>, Seq<u8>)>::empty(), y) == seq![y]);
        assert(seq![x].push(y) =~= seq![x, y]);
        assert(seq![y].push(x) =~= seq![y, x]);
    } else {
        let e = s.last();
        let t = s.drop_last();
        let xs = name_lt(x.0, e.0);
        let ys = name_lt(y.0, e.0);
        if !xs && !ys {
            assert(s.push(x).drop_last() =~= s);
            assert(s.push(y).drop_last() =~= s);
        } else if xs && !ys {
            lemma_lt_through(x.0, e.0, y.0);
            let sx = insert_by_name(t, x).push(e);
            assert(sx.last() == e);
            assert(sx.drop_last() =~= insert_by_name(t, x));
            assert(s.push(y).drop_last() =~= s);
        } else if !xs && ys {
            lemma_lt_through(y.0, e.0, x.0);
            let sy = insert_by_name(t, y).push(e);
            assert(sy.last() == e);
            assert(sy.drop_last() =~= insert_by_name(t, y));
            assert(s.push(x).drop_last() =~= s);
        } else {
            lemma_insert_commutes(t, x, y);
            let sx = insert_by_name(t, x).push(e);
            let sy = insert_by_name(t, y).push(e);
            assert(sx.drop_last() =~= insert_by_name(t, x));
            assert(sy.drop_last() =~= insert_by_name(t, y));
        }
    }
}

proof fn lemma_lt_transitive_not(a: Seq<char>, b: Seq<char>)
    requires
        name_lt(b, a),
    ensures
        !name_lt(a, b),
{
    if name_lt(a, b) {
        lemma_lt_transitive(a, b, a);
        lemma_lt_irreflexive(a);
    }
}

/// No two entries share a name.
pub open spec fn distinct_names(s: Seq<(Seq<char>, Seq<u8>)>) -> bool {
    forall|i: int, j: int| 0 <= i < j < s.len() ==> (#[trigger] s[i]).0 != (#[trigger] s[j]).0
}

/// Name order can be reached by taking any one entry out, ordering the
/// rest, and inserting it last.
proof fn lemma_by_name_pull(s: Seq<(Seq<char>, Seq<u8>)>, i: int)
    requires
        distinct_names(s),
        0 <= i < s.len(),
    ensures
        by_name(s) == insert_by_name(by_name(s.remove(i)), s[i]),
    decreases s.len(),
{
    if i == s.len() - 1 {
        assert(s.remove(i) =~= s.drop_last());
    } else {
        let d = s.drop_last();
        assert forall|a: int, b: int| 0 <= a < b < d.len() implies (#[trigger] d[a]).0 != (#[trigger] d[b]).0 by {
            assert(d[a] == s[a] && d[b] == s[b]);
        }
        lemma_by_name_pull(d, i);
        assert(d[i] == s[i]);
        assert(s[i].0 != s[s.len() - 1].0);
        lemma_insert_commutes(by_name(d.remove(i)), s[i], s.last());
        let r = s.remove(i);
        assert(r =~= d.remove(i).push(s.last()));
        assert(r.drop_last() =~= d.remove(i));
        assert(r.last() == s.last());
    }
}

proof fn lemma_distinct_remove(s: Seq<(Seq<char>, Seq<u8>)>, i: int)
    requires
        distinct_names(s),
        0 <= i < s.len(),
    ensures
        distinct_names(s.remove(i)),
{
    let r = s.remove(i);
    assert forall|a: int, b: int| 0 <= a < b < r.len() implies (#[trigger] r[a]).0 != (#[trigger] r[b]).0 by {
        let a2 = if a < i { a } else { a + 1 };
        let b2 = if b < i { b } else { b + 1 };
        assert(r[a] == s[a2] && r[b] == s[b2]);
    }
}

proof fn lemma_by_name_permutation(p: Seq<(Seq<char>, Seq<u8>)>, q: Seq<(Seq<char>, Seq<u8>)>)
    requires
        p.to_multiset() == q.to_multiset(),
        distinct_names(p),
        distinct_names(q),
    ensures
        by_name(p) == by_name(q),
    decreases p.len(),
{
    p.to_multiset_ensures();
    q.to_multiset_ensures();
    if p.len() == 0 {
        assert(q.len() == 0);
        assert(q =~= p);
    } else {
        let x = p.last();
        assert(p.contains(x)) by {
            assert(p[p.len() - 1] == x);
        }
        assert(p.to_multiset().count(x) > 0);
        assert(q.to_multiset().count(x) > 0);
        assert(q.contains(x));
        let i = choose|i: int| 0 <= i < q.len() && q[i] == x;
        lemma_by_name_pull(q, i);
        vstd::seq_lib::to_multiset_remove(p, p.len() - 1);
        vstd::seq_lib::to_multiset_remove(q, i);
        assert(p.remove(p.len() - 1) =~= p.drop_last());
        lemma_distinct_remove(p, p.len() - 1);
        lemma_distinct_remove(q, i);
        lemma_by_name_permutation(p.drop_last(), q.remove(i));
    }
}

/// The digest does not depend on the order of the entries: any reordering
/// of entries with distinct names gives the same digest.
pub proof fn law_digest_is_order_free(p: Seq<(Seq<char>, Seq<u8>)>, q: Seq<(Seq<char>, Seq<u8>)>)
    requires
        p.to_multiset() == q.to_multiset(),
        distinct_names(p),
        distinct_names(q),
    ensures
        named_digest(p) == named_digest(q),
{
    lemma_by_name_permutation(p, q);
}

/// Every digest is `fnv1a64:` followed by sixteen lowercase hexadecimal
/// digits.
pub proof fn law_digest_format(entries: Seq<(Seq<char>, Seq<u8>)>)
    ensures
        named_digest(entries).len() == 24,
        named_digest(entries).take(8) == "fnv1a64:"@,
        forall|i: int|
            8 <= i < 24 ==> {
                let c = #[trigger] named_digest(entries)[i];
                ('0' <= c && c <= '9') || ('a' <= c && c <= 'f')
            },
{
    let h = framed_hash(FNV_OFFSET, by_name(entries));
    let d = named_digest(entries);
    reveal_strlit("fnv1a64:");
    assert(d.take(8) =~= "fnv1a64:"@);
    assert forall|i: int| 8 <= i < 24 implies {
        let c = #[trigger] d[i];
        ('0' <= c && c <= '9') || ('a' <= c && c <= 'f')
    } by {
        let k = i - 8;
        let shift = (60 - 4 * k) as u64;
        let v = (h >> shift) & 0xf;
        assert(v < 16) by (bit_vector)
            requires
                v == (h >> shift) & 0xf,
        ;
        assert(d[i] == crate::text::hex_digit(v));
    }
}

/// No name of `r` sorts before one that comes earlier.
pub open spec fn ascending(r: Seq<Seq<char>>) -> bool {
    forall|i: int, j: int| 0 <= i < j < r.len() ==> !name_lt(#[trigger] r[j], #[trigger] r[i])
}

proof fn lemma_le_transitive(a: Seq<char>, b: Seq<char>, c: Seq<char>)
    requires
        !name_lt(b, a),
        !name_lt(c, b),
    ensures
        !name_lt(c, a),
{
    if a != b {
        lemma_lt_total(a, b);
    }
    if b != c {
        lemma_lt_total(b, c);
    }
    if a == b && b == c {
        lemma_lt_irreflexive(a);
    } else if a == b {
        lemma_lt_transitive_not(c, a);
    } else if b == c {
        lemma_lt_transitive_not(c, a);
    } else {
        lemma_lt_transitive(a, b, c);
        lemma_lt_transitive_not(c, a);
    }
}

proof fn lemma_insert_name(s: Seq<Seq<char>>, x: Seq<char>)
    requires
        ascending(s),
    ensures
        ascending(insert_name(s, x)),
        insert_name(s, x).to_multiset() == s.to_multiset().insert(x),
    decreases s.len(),
{
    let r = insert_name(s, x);
    if s.len() == 0 {
        s.to_multiset_ensures();
        assert(s.push(x) =~= seq![x]);
    } else if !name_lt(x, s.last()) {
        s.to_multiset_ensures();
        assert forall|i: int, j: int| 0 <= i < j < r.len() implies !name_lt(#[trigger] r[j], #[trigger] r[i]) by {
            if j == s.len() {
                if i < s.len() - 1 {
                    assert(!name_lt(s[s.len() - 1], s[i]));
                } else {
                    lemma_lt_irreflexive(s[i]);
                }
                lemma_le_transitive(s[i], s.last(), x);
            }
        }
    } else {
        let d = s.drop_last();
        let e = s.last();
        assert forall|i: int, j: int| 0 <= i < j < d.len() implies !name_lt(#[trigger] d[j], #[trigger] d[i]) by {
            assert(d[i] == s[i] && d[j] == s[j]);
        }
        lemma_insert_name(d, x);
        let t = insert_name(d, x);
        t.to_multiset_ensures();
        d.to_multiset_ensures();
        lemma_lt_transitive_not(e, x);
        assert forall|i: int, j: int| 0 <= i < j < r.len() implies !name_lt(#[trigger] r[j], #[trigger] r[i]) by {
            if j == t.len() {
                let v = t[i];
                assert(t.to_multiset().count(v) > 0);
                if v != x {
                    assert(d.to_multiset().count(v) > 0);
                    assert(d.contains(v));
                    let k = choose|k: int| 0 <= k < d.len() && d[k] == v;
                    assert(s[k] == v);
                    assert(!name_lt(s[s.len() - 1], s[k]));
                }
            } else {
                assert(r[i] == t[i] && r[j] == t[j]);
            }
        }
        assert(s =~= d.push(e));
        assert(r.to_multiset() =~= s.to_multiset().insert(x));
    }
}

/// Names put in order come out ascending, and are the same names, each as
/// often as before.
pub proof fn law_names_in_order_ascending(s: Seq<Seq<char>>)
    ensures
        ascending(names_in_order(s)),
        names_in_order(s).to_multiset() == s.to_multiset(),
    decreases s.len(),
{
    if s.len() == 0 {
        assert(names_in_order(s) =~= s);
    } else {
        s.drop_last().to_multiset_ensures();
        law_names_in_order_ascending(s.drop_last());
        lemma_insert_name(names_in_order(s.drop_last()), s.last());
        assert(s =~= s.drop_last().push(s.last()));
    }
}

// ------------------------------------------------------- order of paths

proof fn lemma_components_irreflexive(a: Seq<Seq<char>>)
    ensures
        !components_lt(a, a),
    decreases a.len(),
{
    if a.len() > 0 {
        lemma_components_irreflexive(a.drop_first());
    }
}

proof fn lemma_components_transitive(a: Seq<Seq<char>>, b: Seq<Seq<char>>, c: Seq<Seq<char>>)
    requires
        components_lt(a, b),
        components_lt(b, c),
    ensures
        components_lt(a, c),
    decreases a.len(),
{
    if a.len() > 0 {
        if a[0] != b[0] {
            if b[0] != c[0] {
                lemma_lt_transitive(a[0], b[0], c[0]);
            }
            if a[0] == c[0] {
                lemma_lt_irreflexive(a[0]);
                if b[0] != c[0] {
                    lemma_lt_transitive_not(a[0], b[0]);
                }
            }
        } else if b[0] != c[0] {
        } else {
            lemma_components_transitive(a.drop_first(), b.drop_first(), c.drop_first());
        }
    }
}

proof fn lemma_components_total(a: Seq<Seq<char>>, b: Seq<Seq<char>>)
    requires
        a != b,
    ensures
        components_lt(a, b) || components_lt(b, a),
    decreases a.len(),
{
    if a.len() > 0 && b.len() > 0 {
        if a[0] != b[0] {
            lemma_lt_total(a[0], b[0]);
        } else {
            if a.drop_first() == b.drop_first() {
                assert(a =~= seq![a[0]] + a.drop_first());
                assert(b =~= seq![b[0]] + b.drop_first());
            }
            lemma_components_total(a.drop_first(), b.drop_first());
        }
    } else if a.len() == 0 && b.len() == 0 {
        assert(a =~= b);
    }
}

/// Splitting at a character loses nothing: different texts split
/// differently.
proof fn lemma_split_injective(a: Seq<char>, b: Seq<char>, c: char)
    requires
        crate::text::split(a, c) == crate::text::split(b, c),
    ensures
        a == b,
    decreases a.len(),
{
    crate::text::lemma_index_of(a, c);
    crate::text::lemma_index_of(b, c);
    let i = crate::text::index_of(a, c);
    let j = crate::text::index_of(b, c);
    let sa = crate::text::split(a, c);
    let sb = crate::text::split(b, c);
    if i >= a.len() && j >= b.len() {
        assert(sa[0] == a);
        assert(sb[0] == b);
    } else if i < a.len() && j < b.len() {
        assert(sa[0] == a.take(i));
        assert(sb[0] == b.take(j));
        assert(sa.drop_first() =~= crate::text::split(a.skip(i + 1), c));
        assert(sb.drop_first() =~= crate::text::split(b.skip(j + 1), c));
        lemma_split_injective(a.skip(i + 1), b.skip(j + 1), c);
        assert(i == j);
        assert(a =~= a.take(i) + seq![c] + a.skip(i + 1));
        assert(b =~= b.take(j) + seq![c] + b.skip(j + 1));
    } else if i < a.len() {
        lemma_split_nonempty(a.skip(i + 1), c);
        assert(sa.len() >= 2);
        assert(sb.len() == 1);
    } else {
        lemma_split_nonempty(b.skip(j + 1), c);
        assert(sb.len() >= 2);
        assert(sa.len() == 1);
    }
}

proof fn lemma_split_nonempty(s: Seq<char>, c: char)
    ensures
        crate::text::split(s, c).len() >= 1,
{
    crate::text::lemma_index_of(s, c);
}

proof fn lemma_path_order(a: Seq<char>, b: Seq<char>)
    ensures
        !path_lt(a, a),
        a != b ==> path_lt(a, b) || path_lt(b, a),
        path_lt(a, b) ==> !path_lt(b, a),
{
    lemma_components_irreflexive(crate::text::split(a, '/'));
    if a != b {
        if crate::text::split(a, '/') == crate::text::split(b, '/') {
            lemma_split_injective(a, b, '/');
        }
        lemma_components_total(crate::text::split(a, '/'), crate::text::split(b, '/'));
    }
    if path_lt(a, b) && path_lt(b, a) {
        lemma_components_transitive(crate::text::split(a, '/'), crate::text::split(b, '/'), crate::text::split(a, '/'));
    }
}

proof fn lemma_path_transitive(a: Seq<char>, b: Seq<char>, c: Seq<char>)
    requires
        path_lt(a, b),
        path_lt(b, c),
    ensures
        path_lt(a, c),
{
    lemma_components_transitive(crate::text::split(a, '/'), crate::text::split(b, '/'), crate::text::split(c, '/'));
}

proof fn lemma_path_through(x: Seq<char>, e: Seq<char>, y: Seq<char>)
    requires
        path_lt(x, e),
        !path_lt(y, e),
    ensures
        path_lt(x, y),
{
    if y != e {
        lemma_path_order(y, e);
        lemma_path_transitive(x, e, y);
    }
}

/// Inserting two files with different paths gives the same order whichever
/// goes in first.
proof fn lemma_insert_path_commutes(s: Seq<TreeFile>, x: TreeFile, y: TreeFile)
    requires
        x.relative@ != y.relative@,
    ensures
        insert_by_path(insert_by_path(s, x), y) == insert_by_path(insert_by_path(s, y), x),
    decreases s.len(),
{
    lemma_path_order(x.relative@, y.relative@);
    if s.len() == 0 {
        assert(seq![x].drop_last() =~= Seq::<TreeFile>::empty());
        assert(seq![y].drop_last() =~= Seq::<TreeFile>::empty());
        assert(insert_by_path(Seq::<TreeFile>::empty(), x) == seq![x]);
        assert(insert_by_path(Seq::<TreeFile>::empty(), y) == seq![y]);
        assert(seq![x].push(y) =~= seq![x, y]);
        assert(seq![y].push(x) =~= seq![y, x]);
    } else {
        let e = s.last();
        let t = s.drop_last();
        let xs = path_lt(x.relative@, e.relative@);
        let ys = path_lt(y.relative@, e.relative@);
        if !xs && !ys {
            assert(s.push(x).drop_last() =~= s);
            assert(s.push(y).drop_last() =~= s);
        } else if xs && !ys {
            lemma_path_through(x.relative@, e.relative@, y.relative@);
            let sx = insert_by_path(t, x).push(e);
            assert(sx.last() == e);
            assert(sx.drop_last() =~= insert_by_path(t, x));
            assert(s.push(y).drop_last() =~= s);
        } else if !xs && ys {
            lemma_path_through(y.relative@, e.relative@, x.relative@);
            let sy = insert_by_path(t, y).push(e);
            assert(sy.last() == e);
            assert(sy.drop_last() =~= insert_by_path(t, y));
            assert(s.push(x).drop_last() =~= s);
        } else {
            lemma_insert_path_commutes(t, x, y);
            let sx = insert_by_path(t, x).push(e);
            let sy = insert_by_path(t, y).push(e);
            assert(sx.drop_last() =~= insert_by_path(t, x));
            assert(sy.drop_last() =~= insert_by_path(t, y));
        }
    }
}

/// No two files share a path.
pub open spec fn distinct_paths(s: Seq<TreeFile>) -> bool {
    forall|i: int, j: int| 0 <= i < j < s.len() ==> (#[trigger] s[i]).relative@ != (#[trigger] s[j]).relative@
}

proof fn lemma_by_path_pull(s: Seq<TreeFile>, i: int)
    requires
        distinct_paths(s),
        0 <= i < s.len(),
    ensures
        by_path(s) == insert_by_path(by_path(s.remove(i)), s[i]),
    decreases s.len(),
{
    if i == s.len() - 1 {
        assert(s.remove(i) =~= s.drop_last());
    } else {
        let d = s.drop_last();
        assert forall|a: int, b: int| 0 <= a < b < d.len() implies (#[trigger] d[a]).relative@
            != (#[trigger] d[b]).relative@ by {
            assert(d[a] == s[a] && d[b] == s[b]);
        }
        lemma_by_path_pull(d, i);
        assert(d[i] == s[i]);
        assert(s[i].relative@ != s[s.len() - 1].relative@);
        lemma_insert_path_commutes(by_path(d.remove(i)), s[i], s.last());
        let r = s.remove(i);
        assert(r =~= d.remove(i).push(s.last()));
        assert(r.drop_last() =~= d.remove(i));
        assert(r.last() == s.last());
    }
}

proof fn lemma_distinct_paths_remove(s: Seq<TreeFile>, i: int)
    requires
        distinct_paths(s),
        0 <= i < s.len(),
    ensures
        distinct_paths(s.remove(i)),
{
    let r = s.remove(i);
    assert forall|a: int, b: int| 0 <= a < b < r.len() implies (#[trigger] r[a]).relative@
        != (#[trigger] r[b]).relative@ by {
        let a2 = if a < i { a } else { a + 1 };
        let b2 = if b < i { b } else { b + 1 };
        assert(r[a] == s[a2] && r[b] == s[b2]);
    }
}

proof fn lemma_by_path_permutation(p: Seq<TreeFile>, q: Seq<TreeFile>)
    requires
        p.to_multiset() == q.to_multiset(),
        distinct_paths(p),
        distinct_paths(q),
    ensures
        by_path(p) == by_path(q),
    decreases p.len(),
{
    p.to_multiset_ensures();
    q.to_multiset_ensures();
    if p.len() == 0 {
        assert(q.len() == 0);
        assert(q =~= p);
    } else {
        let x = p.last();
        assert(p.contains(x)) by {
            assert(p[p.len() - 1] == x);
        }
        assert(p.to_multiset().count(x) > 0);
        assert(q.to_multiset().count(x) > 0);
        assert(q.contains(x));
        let i = choose|i: int| 0 <= i < q.len() && q[i] == x;
        lemma_by_path_pull(q, i);
        vstd::seq_lib::to_multiset_remove(p, p.len() - 1);
        vstd::seq_lib::to_multiset_remove(q, i);
        assert(p.remove(p.len() - 1) =~= p.drop_last());
        lemma_distinct_paths_remove(p, p.len() - 1);
        lemma_distinct_paths_remove(q, i);
        lemma_by_path_permutation(p.drop_last(), q.remove(i));
    }
}

/// A tree's digest does not depend on the order its files were found in:
/// any reordering of files with distinct paths gives the same digest.
pub proof fn law_tree_digest_is_order_free(p: Seq<TreeFile>, q: Seq<TreeFile>)
    requires
        p.to_multiset() == q.to_multiset(),
        distinct_paths(p),
        distinct_paths(q),
    ensures
        tree_digest_spec(p) == tree_digest_spec(q),
{
    lemma_by_path_permutation(p, q);
}

} // verus!
