//! The segment manifest: an extended playlist whose `#EXTINF:` lines give a
//! part's duration in seconds and whose next plain line gives its path.

use crate::chars::{
    find_char, first_index_of, has_prefix, is_ws, lemma_first_index_of, starts_with, trim, trim_end,
    trim_range, trim_start,
};
use crate::duration::Duration;
use crate::errors::SplitterError;
use crate::seconds::{parse_millis, seconds_to_millis};
use crate::text::{chars_of, push_chars};
use vstd::prelude::*;

verus! {

pub open spec fn extinf_tag() -> Seq<char> {
    "#EXTINF:"@
}

pub open spec fn endlist_tag() -> Seq<char> {
    "#EXT-X-ENDLIST"@
}

pub open spec fn directive_tag() -> Seq<char> {
    "#EXT"@
}

/// Where the line that starts at `pos` ends: its `\n`, or the end of `s`.
pub open spec fn line_end(s: Seq<char>, pos: int) -> int {
    pos + first_index_of(s.subrange(pos, s.len() as int), '\n')
}

/// The line that starts at `pos`, as `str::lines` gives it: without its
/// `\n`, and without the `\r` of a `\r\n`.
pub open spec fn line_text(s: Seq<char>, pos: int) -> Seq<char> {
    let e = line_end(s, pos);
    if e < s.len() && e > pos && s[e - 1] == '\r' {
        s.subrange(pos, e - 1)
    } else {
        s.subrange(pos, e)
    }
}

/// Where the line after the one that starts at `pos` starts.
pub open spec fn next_line(s: Seq<char>, pos: int) -> int {
    let e = line_end(s, pos);
    if e < s.len() {
        e + 1
    } else {
        s.len() as int
    }
}

/// The duration text of an `#EXTINF:` line: after the tag, before the first
/// comma, trimmed.
pub open spec fn extinf_field(l: Seq<char>) -> Seq<char> {
    let rest = l.subrange(extinf_tag().len() as int, l.len() as int);
    trim(rest.subrange(0, first_index_of(rest, ',') as int))
}

/// The sum of the durations of `parts`, in milliseconds.
pub open spec fn sum_ms(parts: Seq<(nat, Seq<char>)>) -> nat
    decreases parts.len(),
{
    if parts.len() == 0 {
        0
    } else {
        sum_ms(parts.drop_last()) + parts.last().0
    }
}

/// The parts (milliseconds, path) read from the lines of `s` from `pos` on,
/// after `acc`, where `pending` holds the duration of an `#EXTINF:` line still
/// waiting for its path; or the index of the line that could not be read (a
/// duration that is no number, or a total that does not fit in `u64`).
pub open spec fn scan(
    s: Seq<char>,
    pos: int,
    line: nat,
    pending: Option<nat>,
    acc: Seq<(nat, Seq<char>)>,
) -> Result<Seq<(nat, Seq<char>)>, nat>
    decreases s.len() - pos,
{
    if pos < 0 || pos >= s.len() {
        Ok(acc)
    } else {
        let l = line_text(s, pos);
        let next = next_line(s, pos);
        if starts_with(l, extinf_tag()) {
            match seconds_to_millis(extinf_field(l)) {
                Some(d) => if d <= u64::MAX {
                    scan(s, next, line + 1, Some(d), acc)
                } else {
                    Err(line)
                },
                None => Err(line),
            }
        } else if starts_with(l, endlist_tag()) {
            Ok(acc)
        } else if starts_with(l, directive_tag()) {
            scan(s, next, line + 1, pending, acc)
        } else if pending is Some {
            let d = pending->0;
            if sum_ms(acc) + d > u64::MAX {
                Err(line)
            } else {
                scan(s, next, line + 1, None, acc.push((d, trim(l))))
            }
        } else {
            scan(s, next, line + 1, pending, acc)
        }
    }
}

/// What the manifest `s` holds: its parts in order, or the failing line.
pub open spec fn manifest_parts(s: Seq<char>) -> Result<Seq<(nat, Seq<char>)>, nat> {
    scan(s, 0, 0, None, Seq::empty())
}

/// One segment: how long it plays, and its path relative to the output folder.
pub struct PartInfo {
    pub duration: Duration,
    pub path: String,
}

impl View for PartInfo {
    type V = (nat, Seq<char>);

    open spec fn view(&self) -> (nat, Seq<char>) {
        (self.duration.millis as nat, self.path@)
    }
}

/// The parts of a manifest, in order, and their total duration.
pub struct PlaylistInfo {
    pub total_duration: Duration,
    pub parts: Vec<PartInfo>,
}

impl PlaylistInfo {
    pub open spec fn parts_view(&self) -> Seq<(nat, Seq<char>)> {
        self.parts@.map_values(|p: PartInfo| p@)
    }

    /// The total is the sum of the parts' durations.
    pub open spec fn wf(&self) -> bool {
        self.total_duration.millis as nat == sum_ms(self.parts_view())
    }

    pub fn last_part(&self) -> (r: Option<&PartInfo>)
        ensures
            self.parts@.len() == 0 ==> r is None,
            self.parts@.len() > 0 ==> r == Some(&self.parts@.last()),
    {
        if self.parts.len() == 0 {
            None
        } else {
            Some(&self.parts[self.parts.len() - 1])
        }
    }

    pub fn second_last_part(&self) -> (r: Option<&PartInfo>)
        ensures
            self.parts@.len() < 2 ==> r is None,
            self.parts@.len() >= 2 ==> r == Some(&self.parts@[self.parts@.len() - 2]),
    {
        if self.parts.len() < 2 {
            return None;
        }
        Some(&self.parts[self.parts.len() - 2])
    }
}

/// Reads a manifest. It fails with `PlaylistParse` on the first line that
/// cannot be read, and with `PlaylistEmpty` where it names no part.
pub fn parse_playlist(text: &str) -> (r: Result<PlaylistInfo, SplitterError>)
    ensures
        match manifest_parts(text@) {
            Ok(parts) => if parts.len() == 0 {
                r == Err::<PlaylistInfo, SplitterError>(SplitterError::PlaylistEmpty)
            } else {
                r is Ok && r->Ok_0.parts_view() == parts && r->Ok_0.wf()
            },
            Err(line) => r == Err::<PlaylistInfo, SplitterError>(
                SplitterError::PlaylistParse(line as usize),
            ),
        },
{
    let cs = chars_of(text);
    let tag_inf = chars_of("#EXTINF:");
    let tag_end = chars_of("#EXT-X-ENDLIST");
    let tag_ext = chars_of("#EXT");
    let mut parts: Vec<PartInfo> = Vec::new();
    let mut total: u64 = 0;
    let mut pending: Option<u64> = None;
    let mut pos: usize = 0;
    let mut line: usize = 0;
    let mut stop = false;
    assert(parts@.map_values(|p: PartInfo| p@) =~= Seq::<(nat, Seq<char>)>::empty());
    while !stop && pos < cs.len()
        invariant
            line <= pos <= cs@.len(),
            cs@ == text@,
            tag_inf@ == extinf_tag(),
            tag_end@ == endlist_tag(),
            tag_ext@ == directive_tag(),
            total == sum_ms(parts@.map_values(|p: PartInfo| p@)),
            manifest_parts(text@) == if stop {
                Ok(parts@.map_values(|p: PartInfo| p@))
            } else {
                scan(
                    cs@,
                    pos as int,
                    line as nat,
                    match pending {
                        Some(d) => Some(d as nat),
                        None => None,
                    },
                    parts@.map_values(|p: PartInfo| p@),
                )
            },
        decreases cs@.len() - pos, if stop { 0int } else { 1int },
    {
        let ghost acc = parts@.map_values(|p: PartInfo| p@);
        let e = find_char(&cs, pos, cs.len(), '\n');
        let ce = if e < cs.len() && e > pos && cs[e - 1] == '\r' {
            e - 1
        } else {
            e
        };
        let next = if e < cs.len() {
            e + 1
        } else {
            cs.len()
        };
        let ghost l = cs@.subrange(pos as int, ce as int);
        assert(l == line_text(cs@, pos as int));
        assert(next == next_line(cs@, pos as int));
        if has_prefix(&cs, pos, ce, &tag_inf) {
            let fs = pos + tag_inf.len();
            let comma = find_char(&cs, fs, ce, ',');
            let ghost rest = l.subrange(extinf_tag().len() as int, l.len() as int);
            assert(rest =~= cs@.subrange(fs as int, ce as int));
            proof {
                lemma_first_index_of(rest, ',');
            }
            assert(rest.subrange(0, first_index_of(rest, ',') as int) =~= cs@.subrange(
                fs as int,
                comma as int,
            ));
            let (a, b) = trim_range(&cs, fs, comma);
            match parse_millis(&cs, a, b) {
                Some(d) => {
                    pending = Some(d);
                },
                None => {
                    return Err(SplitterError::PlaylistParse(line));
                },
            }
        } else if has_prefix(&cs, pos, ce, &tag_end) {
            stop = true;
        } else if has_prefix(&cs, pos, ce, &tag_ext) {
        } else if let Some(d) = pending {
            if total > u64::MAX - d {
                return Err(SplitterError::PlaylistParse(line));
            }
            let (a, b) = trim_range(&cs, pos, ce);
            let mut path = String::new();
            push_chars(&mut path, &cs, a, b);
            let part = PartInfo { duration: Duration::from_millis(d), path };
            parts.push(part);
            assert(parts@.map_values(|p: PartInfo| p@) =~= acc.push((d as nat, trim(l))));
            assert(acc.push((d as nat, trim(l))).drop_last() =~= acc);
            total = total + d;
            pending = None;
        }
        pos = next;
        line = line + 1;
    }
    if parts.len() == 0 {
        return Err(SplitterError::PlaylistEmpty);
    }
    Ok(PlaylistInfo { total_duration: Duration::from_millis(total), parts })
}


/// The text of one manifest entry: its `#EXTINF:` line, whose text after
/// the tag is `d` (the duration, then optionally a comma and a label), then
/// the path line `p`.
pub open spec fn entry_text(d: Seq<char>, p: Seq<char>) -> Seq<char> {
    extinf_tag() + d + "\n"@ + p + "\n"@
}

/// The duration that the text `d` after an `#EXTINF:` tag gives: what stands
/// before its first comma, trimmed, read as seconds.
pub open spec fn entry_value(d: Seq<char>) -> Option<nat> {
    seconds_to_millis(trim(d.subrange(0, first_index_of(d, ',') as int)))
}

/// A manifest made of the given (duration text, path) entries, in order.
pub open spec fn render(entries: Seq<(Seq<char>, Seq<char>)>) -> Seq<char>
    decreases entries.len(),
{
    if entries.len() == 0 {
        Seq::empty()
    } else {
        render(entries.drop_last()) + entry_text(entries.last().0, entries.last().1)
    }
}

/// An entry that a manifest can hold as written: a tag line on one line,
/// not ended by a carriage return, whose duration reads as seconds; a path on
/// one line, with no white space at its ends, that is no directive.
pub open spec fn entry_ok(d: Seq<char>, p: Seq<char>) -> bool {
    &&& forall|i: int| 0 <= i < d.len() ==> d[i] != '\n'
    &&& (d.len() == 0 || d.last() != '\r')
    &&& entry_value(d) is Some
    &&& entry_value(d)->0 <= u64::MAX
    &&& forall|i: int| 0 <= i < p.len() ==> p[i] != '\n'
    &&& (p.len() == 0 || (!is_ws(p[0]) && !is_ws(p.last())))
    &&& !starts_with(p, directive_tag())
}

/// The parts that the entries stand for: each path with its milliseconds.
pub open spec fn entry_parts(entries: Seq<(Seq<char>, Seq<char>)>) -> Seq<(nat, Seq<char>)> {
    entries.map_values(|e: (Seq<char>, Seq<char>)| (entry_value(e.0)->0, e.1))
}

proof fn lemma_first_index_at(t: Seq<char>, c: char, k: int)
    requires
        0 <= k < t.len(),
        t[k] == c,
        forall|j: int| 0 <= j < k ==> t[j] != c,
    ensures
        first_index_of(t, c) == k,
{
    lemma_first_index_of(t, c);
}

/// Reading one entry that stands at `pos` adds its part and moves past it.
proof fn lemma_scan_entry(
    s: Seq<char>,
    pos: int,
    d: Seq<char>,
    p: Seq<char>,
    line: nat,
    acc: Seq<(nat, Seq<char>)>,
)
    requires
        0 <= pos,
        pos + entry_text(d, p).len() <= s.len(),
        s.subrange(pos, pos + entry_text(d, p).len()) == entry_text(d, p),
        entry_ok(d, p),
        sum_ms(acc) + entry_value(d)->0 <= u64::MAX,
    ensures
        scan(s, pos, line, None, acc) == scan(
            s,
            pos + entry_text(d, p).len(),
            line + 2,
            None,
            acc.push((entry_value(d)->0, p)),
        ),
{
    reveal_strlit("#EXTINF:");
    reveal_strlit("\n");
    reveal_strlit("#EXT");
    reveal_strlit("#EXT-X-ENDLIST");
    let et = entry_text(d, p);
    let m = entry_value(d)->0;
    assert(et.len() == 8 + d.len() + 1 + p.len() + 1);
    assert forall|j: int| 0 <= j < et.len() implies s[pos + j] == #[trigger] et[j] by {
        assert(s.subrange(pos, pos + et.len())[j] == s[pos + j]);
    }
    // the `#EXTINF:` line
    let k1 = 8 + d.len() as int;
    let t1 = s.subrange(pos, s.len() as int);
    assert(et[k1] == '\n');
    assert forall|j: int| 0 <= j < k1 implies t1[j] != '\n' by {
        assert(t1[j] == et[j]);
        if j >= 8 && j < 8 + d.len() {
            assert(et[j] == d[j - 8]);
        }
    }
    assert(t1[k1] == et[k1]);
    lemma_first_index_at(t1, '\n', k1);
    let e1 = pos + k1;
    assert(line_end(s, pos) == e1);
    assert(s[e1 - 1] == et[k1 - 1]);
    if d.len() > 0 {
        assert(et[k1 - 1] == d.last());
    } else {
        assert(et[k1 - 1] == ':');
    }
    let l1 = s.subrange(pos, e1);
    assert(l1 =~= extinf_tag() + d) by {
        assert forall|j: int| 0 <= j < l1.len() implies l1[j] == (extinf_tag() + d)[j] by {
            assert(l1[j] == s[pos + j]);
            assert(s[pos + j] == et[j]);
        }
    }
    assert(line_text(s, pos) == l1);
    assert(l1.subrange(0, 8) =~= extinf_tag());
    assert(starts_with(l1, extinf_tag()));
    let rest = l1.subrange(8, l1.len() as int);
    assert(rest =~= d);
    assert(extinf_field(l1) == trim(d.subrange(0, first_index_of(d, ',') as int)));
    assert(next_line(s, pos) == e1 + 1);
    // the path line
    let pos2 = e1 + 1;
    let t2 = s.subrange(pos2, s.len() as int);
    let k2 = p.len() as int;
    assert(t2[k2] == et[k1 + 1 + k2]);
    assert(et[k1 + 1 + k2] == '\n');
    assert forall|j: int| 0 <= j < k2 implies t2[j] != '\n' by {
        assert(t2[j] == et[k1 + 1 + j]);
        assert(et[k1 + 1 + j] == p[j]);
    }
    lemma_first_index_at(t2, '\n', k2);
    let e2 = pos2 + k2;
    assert(line_end(s, pos2) == e2);
    let l2 = s.subrange(pos2, e2);
    assert(l2 =~= p) by {
        assert forall|j: int| 0 <= j < k2 implies l2[j] == p[j] by {
            assert(l2[j] == s[pos2 + j]);
            assert(s[pos2 + j] == et[k1 + 1 + j]);
        }
    }
    if e2 > pos2 {
        assert(s[e2 - 1] == p.last());
        assert(is_ws('\r'));
    }
    assert(line_text(s, pos2) == p);
    assert(next_line(s, pos2) == pos + et.len());
    if starts_with(p, extinf_tag()) {
        assert(p.subrange(0, 4) =~= p.subrange(0, 8).subrange(0, 4));
        assert(extinf_tag().subrange(0, 4) =~= directive_tag());
    }
    if starts_with(p, endlist_tag()) {
        assert(p.subrange(0, 4) =~= p.subrange(0, 14).subrange(0, 4));
        assert(endlist_tag().subrange(0, 4) =~= directive_tag());
    }
    assert(trim_start(p) == p);
    assert(trim_end(p) == p);
    assert(trim(p) == p);
    assert(scan(s, pos2, line + 1, Some(m), acc) == scan(
        s,
        pos + et.len(),
        line + 2,
        None,
        acc.push((m, p)),
    ));
}

proof fn lemma_scan_rendered(
    pre: Seq<char>,
    entries: Seq<(Seq<char>, Seq<char>)>,
    tail: Seq<char>,
    line: nat,
)
    requires
        forall|i: int| 0 <= i < entries.len() ==> entry_ok(#[trigger] entries[i].0, entries[i].1),
        sum_ms(entry_parts(entries)) <= u64::MAX,
    ensures
        scan(pre + render(entries) + tail, pre.len() as int, line, None, Seq::empty()) == scan(
            pre + render(entries) + tail,
            pre.len() + render(entries).len() as int,
            line + 2 * entries.len(),
            None,
            entry_parts(entries),
        ),
    decreases entries.len(),
{
    if entries.len() == 0 {
        assert(entry_parts(entries) =~= Seq::<(nat, Seq<char>)>::empty());
    } else {
        let init = entries.drop_last();
        let e = entries.last();
        let et = entry_text(e.0, e.1);
        let s = pre + render(entries) + tail;
        assert(entry_parts(init) =~= entry_parts(entries).drop_last());
        assert(entry_parts(entries).last() == (entry_value(e.0)->0, e.1));
        assert forall|i: int| 0 <= i < init.len() implies entry_ok(#[trigger] init[i].0, init[i].1) by {
            assert(init[i] == entries[i]);
        }
        assert(pre + render(init) + (et + tail) =~= s);
        lemma_scan_rendered(pre, init, et + tail, line);
        let pos = pre.len() + render(init).len() as int;
        assert(s.subrange(pos, pos + et.len()) =~= et);
        assert(entry_ok(entries[entries.len() - 1].0, entries[entries.len() - 1].1));
        lemma_scan_entry(s, pos, e.0, e.1, line + 2 * init.len(), entry_parts(init));
        assert(entry_parts(init).push((entry_value(e.0)->0, e.1)) =~= entry_parts(entries));
    }
}

/// A manifest written from `N` well-formed entries reads back as exactly `N`
/// parts: each entry's path, in order, with the milliseconds of its duration;
/// their sum is the manifest's total.
pub proof fn lemma_rendered_manifest(entries: Seq<(Seq<char>, Seq<char>)>)
    requires
        forall|i: int| 0 <= i < entries.len() ==> entry_ok(#[trigger] entries[i].0, entries[i].1),
        sum_ms(entry_parts(entries)) <= u64::MAX,
    ensures
        manifest_parts(render(entries)) == Ok::<Seq<(nat, Seq<char>)>, nat>(entry_parts(entries)),
        entry_parts(entries).len() == entries.len(),
        forall|i: int| 0 <= i < entries.len() ==> #[trigger] entry_parts(entries)[i] == (
            entry_value(entries[i].0)->0,
            entries[i].1,
        ),
{
    let s = render(entries);
    assert(Seq::<char>::empty() + s + Seq::<char>::empty() =~= s);
    lemma_scan_rendered(Seq::empty(), entries, Seq::empty(), 0);
}


/// Lines one after the other, each ended by a newline.
pub open spec fn render_lines(lines: Seq<Seq<char>>) -> Seq<char>
    decreases lines.len(),
{
    if lines.len() == 0 {
        Seq::empty()
    } else {
        lines[0] + "\n"@ + render_lines(lines.drop_first())
    }
}

/// A directive line that names no part: `#EXT...` but not `#EXTINF:`, on one
/// line, with no carriage return.
pub open spec fn other_directive(l: Seq<char>) -> bool {
    &&& starts_with(l, directive_tag())
    &&& !starts_with(l, extinf_tag())
    &&& forall|i: int| 0 <= i < l.len() ==> l[i] != '\n' && l[i] != '\r'
}

proof fn lemma_scan_directives(s: Seq<char>, pos: int, lines: Seq<Seq<char>>, line: nat)
    requires
        0 <= pos <= s.len(),
        s.subrange(pos, s.len() as int) == render_lines(lines),
        forall|i: int| 0 <= i < lines.len() ==> other_directive(#[trigger] lines[i]),
    ensures
        scan(s, pos, line, None, Seq::empty()) == Ok::<Seq<(nat, Seq<char>)>, nat>(Seq::empty()),
    decreases lines.len(),
{
    reveal_strlit("\n");
    if lines.len() > 0 {
        let l = lines[0];
        let t = s.subrange(pos, s.len() as int);
        assert(other_directive(lines[0]));
        assert(t =~= l + "\n"@ + render_lines(lines.drop_first()));
        assert(t[l.len() as int] == '\n');
        assert forall|j: int| 0 <= j < l.len() implies t[j] != '\n' by {
            assert(t[j] == l[j]);
        }
        lemma_first_index_at(t, '\n', l.len() as int);
        let e = pos + l.len();
        assert(line_end(s, pos) == e);
        assert(s.subrange(pos, e) =~= l) by {
            assert forall|j: int| 0 <= j < l.len() implies s.subrange(pos, e)[j] == l[j] by {
                assert(s.subrange(pos, e)[j] == t[j]);
            }
        }
        if e > pos {
            assert(s[e - 1] == t[l.len() - 1]);
            assert(t[l.len() - 1] == l[l.len() - 1]);
        }
        assert(line_text(s, pos) == l);
        assert(next_line(s, pos) == e + 1);
        assert(s.subrange(e + 1, s.len() as int) =~= render_lines(lines.drop_first())) by {
            assert(t.subrange(l.len() as int + 1, t.len() as int) =~= render_lines(lines.drop_first()));
        }
        assert forall|i: int| 0 <= i < lines.drop_first().len() implies other_directive(
            #[trigger] lines.drop_first()[i],
        ) by {
            assert(lines.drop_first()[i] == lines[i + 1]);
        }
        lemma_scan_directives(s, e + 1, lines.drop_first(), line + 1);
    }
}

/// However many directive lines a manifest holds, with no `#EXTINF:` among
/// them it names no part, and reading it fails with `PlaylistEmpty`.
pub proof fn lemma_directives_only_is_empty(lines: Seq<Seq<char>>)
    requires
        forall|i: int| 0 <= i < lines.len() ==> other_directive(#[trigger] lines[i]),
    ensures
        manifest_parts(render_lines(lines)) == Ok::<Seq<(nat, Seq<char>)>, nat>(Seq::empty()),
{
    let s = render_lines(lines);
    assert(s.subrange(0, s.len() as int) =~= s);
    lemma_scan_directives(s, 0, lines, 0);
}


/// Does a line of `s` start at `q`?
pub open spec fn line_start(s: Seq<char>, q: int) -> bool {
    q == 0 || (0 < q <= s.len() && s[q - 1] == '\n')
}

/// An `#EXTINF:` line whose duration does not read as seconds.
pub open spec fn unreadable_extinf(l: Seq<char>) -> bool {
    starts_with(l, extinf_tag()) && seconds_to_millis(extinf_field(l)) is None
}

proof fn lemma_scan_reaches_bad_line(
    s: Seq<char>,
    k: int,
    pos: int,
    line: nat,
    pending: Option<nat>,
    acc: Seq<(nat, Seq<char>)>,
)
    requires
        0 <= pos <= k < s.len(),
        line_start(s, pos),
        line_start(s, k),
        forall|q: int| 0 <= q < k && #[trigger] line_start(s, q) ==> !starts_with(
            line_text(s, q),
            endlist_tag(),
        ),
        unreadable_extinf(line_text(s, k)),
    ensures
        scan(s, pos, line, pending, acc) is Err,
    decreases k - pos,
{
    if pos < k {
        let t = s.subrange(pos, s.len() as int);
        lemma_first_index_of(t, '\n');
        assert(s[k - 1] == '\n');
        assert(t[k - 1 - pos] == s[k - 1]);
        let e = line_end(s, pos);
        assert(e <= k - 1);
        assert(t[e - pos] == s[e]);
        assert(s[e] == '\n');
        assert(next_line(s, pos) == e + 1);
        assert(line_start(s, e + 1));
        let l = line_text(s, pos);
        if starts_with(l, extinf_tag()) {
            match seconds_to_millis(extinf_field(l)) {
                Some(d) => {
                    if d <= u64::MAX {
                        lemma_scan_reaches_bad_line(s, k, e + 1, line + 1, Some(d), acc);
                    }
                },
                None => {},
            }
        } else if starts_with(l, endlist_tag()) {
            assert(false);
        } else if starts_with(l, directive_tag()) {
            lemma_scan_reaches_bad_line(s, k, e + 1, line + 1, pending, acc);
        } else if pending is Some {
            if sum_ms(acc) + pending->0 <= u64::MAX {
                lemma_scan_reaches_bad_line(s, k, e + 1, line + 1, None, acc.push((pending->0, trim(l))));
            }
        } else {
            lemma_scan_reaches_bad_line(s, k, e + 1, line + 1, pending, acc);
        }
    }
}

/// A manifest with an `#EXTINF:` line whose duration does not read as
/// seconds, and no `#EXT-X-ENDLIST` line before it, is rejected whatever
/// stands around it: no part of it is given back.
pub proof fn lemma_unreadable_duration_rejects(s: Seq<char>, k: int)
    requires
        0 <= k < s.len(),
        line_start(s, k),
        forall|q: int| 0 <= q < k && #[trigger] line_start(s, q) ==> !starts_with(
            line_text(s, q),
            endlist_tag(),
        ),
        unreadable_extinf(line_text(s, k)),
    ensures
        manifest_parts(s) is Err,
{
    lemma_scan_reaches_bad_line(s, k, 0, 0, None, Seq::empty());
}


/// A directive line that neither names a part nor ends the manifest.
pub open spec fn header_line(l: Seq<char>) -> bool {
    other_directive(l) && !starts_with(l, endlist_tag())
}

proof fn lemma_scan_header(
    s: Seq<char>,
    pos: int,
    lines: Seq<Seq<char>>,
    line: nat,
    acc: Seq<(nat, Seq<char>)>,
)
    requires
        0 <= pos,
        pos + render_lines(lines).len() <= s.len(),
        s.subrange(pos, pos + render_lines(lines).len()) == render_lines(lines),
        forall|i: int| 0 <= i < lines.len() ==> header_line(#[trigger] lines[i]),
    ensures
        scan(s, pos, line, None, acc) == scan(
            s,
            pos + render_lines(lines).len(),
            line + lines.len(),
            None,
            acc,
        ),
    decreases lines.len(),
{
    reveal_strlit("\n");
    if lines.len() > 0 {
        let l = lines[0];
        let r = render_lines(lines);
        let t = s.subrange(pos, s.len() as int);
        assert(header_line(lines[0]));
        assert(r =~= l + "\n"@ + render_lines(lines.drop_first()));
        assert forall|j: int| 0 <= j < r.len() implies t[j] == #[trigger] r[j] by {
            assert(s.subrange(pos, pos + r.len())[j] == s[pos + j]);
        }
        assert(t[l.len() as int] == r[l.len() as int]);
        assert forall|j: int| 0 <= j < l.len() implies t[j] != '\n' by {
            assert(t[j] == r[j]);
        }
        lemma_first_index_at(t, '\n', l.len() as int);
        let e = pos + l.len();
        assert(line_end(s, pos) == e);
        assert(s.subrange(pos, e) =~= l) by {
            assert forall|j: int| 0 <= j < l.len() implies s.subrange(pos, e)[j] == l[j] by {
                assert(s.subrange(pos, e)[j] == t[j]);
                assert(t[j] == r[j]);
            }
        }
        if e > pos {
            assert(s[e - 1] == t[l.len() - 1]);
            assert(t[l.len() - 1] == r[l.len() - 1]);
        }
        assert(line_text(s, pos) == l);
        assert(next_line(s, pos) == e + 1);
        let rest = lines.drop_first();
        let rr = render_lines(rest);
        assert(s.subrange(e + 1, e + 1 + rr.len()) =~= rr) by {
            assert forall|j: int| 0 <= j < rr.len() implies s.subrange(e + 1, e + 1 + rr.len())[j]
                == rr[j] by {
                assert(s.subrange(e + 1, e + 1 + rr.len())[j] == s[e + 1 + j]);
                assert(t[l.len() + 1 + j] == r[l.len() + 1 + j]);
            }
        }
        assert forall|i: int| 0 <= i < rest.len() implies header_line(#[trigger] rest[i]) by {
            assert(rest[i] == lines[i + 1]);
        }
        lemma_scan_header(s, e + 1, rest, line + 1, acc);
    }
}

/// A manifest as the encoder writes it, with header directives first, then
/// `N` well-formed entries, then `#EXT-X-ENDLIST` and whatever follows it,
/// reads back as exactly the entries' `N` parts, in order.
pub proof fn lemma_manifest_with_header(
    header: Seq<Seq<char>>,
    entries: Seq<(Seq<char>, Seq<char>)>,
    trailer: Seq<char>,
)
    requires
        forall|i: int| 0 <= i < header.len() ==> header_line(#[trigger] header[i]),
        forall|i: int| 0 <= i < entries.len() ==> entry_ok(#[trigger] entries[i].0, entries[i].1),
        sum_ms(entry_parts(entries)) <= u64::MAX,
    ensures
        manifest_parts(render_lines(header) + render(entries) + (endlist_tag() + trailer)) == Ok::<
            Seq<(nat, Seq<char>)>,
            nat,
        >(entry_parts(entries)),
{
    reveal_strlit("#EXTINF:");
    reveal_strlit("#EXT-X-ENDLIST");
    let h = render_lines(header);
    let tail = endlist_tag() + trailer;
    let s = h + render(entries) + tail;
    assert(s.subrange(0, h.len() as int) =~= h);
    lemma_scan_header(s, 0, header, 0, Seq::empty());
    lemma_scan_rendered(h, entries, tail, header.len());
    let q = h.len() + render(entries).len() as int;
    let t = s.subrange(q, s.len() as int);
    assert forall|j: int| 0 <= j < 14 implies #[trigger] t[j] == endlist_tag()[j] by {
        assert(t[j] == s[q + j]);
        assert(s[q + j] == tail[j]);
    }
    lemma_first_index_of(t, '\n');
    let e = line_end(s, q);
    assert(e >= q + 14);
    let l = line_text(s, q);
    assert(l.len() >= 14);
    assert forall|j: int| 0 <= j < 14 implies l[j] == endlist_tag()[j] by {
        assert(l[j] == s[q + j]);
        assert(t[j] == s[q + j]);
    }
    assert(l.subrange(0, 14) =~= endlist_tag());
    assert(l[4] == '-');
    assert(extinf_tag()[4] == 'I');
    assert(!starts_with(l, extinf_tag()));
}

} // verus!
