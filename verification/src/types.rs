//! Recordings left waiting in working directories.
use vstd::prelude::*;
use crate::text::{chars_of, has_prefix, str_starts_with, string_from_range, vec_starts_with};

verus! {

/// A recording left in a working directory (a failed transcode or an interrupted run),
/// which can be recovered or cleaned up.
pub struct PendingRecording {
    /// The working directory, which holds the raw segments.
    pub work_dir: String,
    /// How many usable segments it holds.
    pub segment_count: u32,
    /// Their total size in bytes.
    pub total_bytes: u64,
    /// The room id, from the directory name.
    pub room_id: String,
    /// The earliest modification time of a segment, in Unix seconds (0 when unknown).
    pub earliest_ts: i64,
}

/// A file inside a working directory.
pub struct PendingFile {
    /// Whether its extension is `flv` or `mp4`.
    pub is_video: bool,
    /// Its size, when its metadata could be read.
    pub size: Option<u64>,
    /// Its modification time in Unix seconds, when known.
    pub modified_secs: Option<u64>,
}

/// A usable segment: a video file whose size is known and above 10 KiB.
pub open spec fn usable(f: PendingFile) -> bool {
    f.is_video && (f.size matches Some(n) && n > 10240)
}

pub open spec fn usable_files(files: Seq<PendingFile>) -> Seq<PendingFile> {
    files.filter(|f: PendingFile| usable(f))
}

/// The total size of the files (sizes taken as 0 when unknown).
pub open spec fn total_size(files: Seq<PendingFile>) -> int
    decreases files.len(),
{
    if files.len() == 0 {
        0
    } else {
        total_size(files.drop_last()) + match files.last().size { Some(n) => n as int, None => 0int }
    }
}

/// The smallest modification time among the files (as `i64`), starting from `i64::MAX`.
pub open spec fn earliest(files: Seq<PendingFile>) -> i64
    decreases files.len(),
{
    if files.len() == 0 {
        i64::MAX
    } else {
        let e = earliest(files.drop_last());
        match files.last().modified_secs {
            Some(t) => if (t as i64) < e { t as i64 } else { e },
            None => e,
        }
    }
}

/// `s` with every leading copy of `p` removed (`str::trim_start_matches`).
pub open spec fn strip_all_prefix(s: Seq<char>, p: Seq<char>) -> Seq<char>
    decreases s.len(),
{
    if p.len() > 0 && has_prefix(s, p) {
        strip_all_prefix(s.skip(p.len() as int), p)
    } else {
        s
    }
}

/// The entry of a waiting recording, from a directory of the output directory named
/// `dir_name` at `work_dir` holding `files`: only `._work_` directories with at least one
/// usable segment count.
pub open spec fn pending_of(dir_name: Seq<char>, work_dir: Seq<char>, files: Seq<PendingFile>)
    -> Option<(Seq<char>, u32, int, Seq<char>, i64)>
{
    let used = usable_files(files);
    if !has_prefix(dir_name, "._work_"@) || used.len() == 0 {
        None
    } else {
        let e = earliest(used);
        Some((work_dir, used.len() as u32, total_size(used), strip_all_prefix(dir_name, "._work_"@),
            if e == i64::MAX { 0 } else { e }))
    }
}

proof fn lemma_total_monotone(files: Seq<PendingFile>, i: int)
    requires
        0 <= i <= files.len(),
    ensures
        0 <= total_size(files.take(i)) <= total_size(files),
    decreases files.len() - i,
{
    if i < files.len() {
        lemma_total_monotone(files, i + 1);
        assert(files.take(i + 1).drop_last() =~= files.take(i));
    } else {
        assert(files.take(i) =~= files);
    }
    lemma_total_nonneg(files.take(i));
}

proof fn lemma_total_nonneg(files: Seq<PendingFile>)
    ensures
        total_size(files) >= 0,
    decreases files.len(),
{
    if files.len() > 0 {
        lemma_total_nonneg(files.drop_last());
    }
}

/// The waiting recording in a working directory, if it is one.
pub fn pending_recording(dir_name: &str, work_dir: &str, files: &Vec<PendingFile>) -> (res: Option<PendingRecording>)
    requires
        total_size(usable_files(files@)) <= u64::MAX,
    ensures
        match pending_of(dir_name@, work_dir@, files@) {
            Some((w, n, total, room, ts)) => res matches Some(p) && p.work_dir@ == w && p.segment_count == n
                && p.total_bytes == total && p.room_id@ == room && p.earliest_ts == ts,
            None => res is None,
        },
{
    if !str_starts_with(dir_name, "._work_") {
        return None;
    }
    let ghost all = files@;
    let mut count: usize = 0;
    let mut total: u64 = 0;
    let mut earliest_ts: i64 = i64::MAX;
    let mut i: usize = 0;
    proof {
        reveal_with_fuel(Seq::<PendingFile>::filter, 1);
        assert(all.take(0) =~= Seq::<PendingFile>::empty());
    }
    while i < files.len()
        invariant
            i <= files@.len(),
            all == files@,
            total_size(usable_files(all)) <= u64::MAX,
            count == usable_files(all.take(i as int)).len(),
            total == total_size(usable_files(all.take(i as int))),
            earliest_ts == earliest(usable_files(all.take(i as int))),
        decreases files.len() - i,
    {
        proof {
            reveal_with_fuel(Seq::<PendingFile>::filter, 1);
            assert(all.take(i + 1).drop_last() =~= all.take(i as int));
            assert(all.take(i + 1).last() == files@[i as int]);
            lemma_filter_prefix(all, i as int + 1);
            lemma_total_monotone(usable_files(all), usable_files(all.take(i + 1)).len() as int);
            lemma_usable_len(all, i as int + 1);
        }
        let f = &files[i];
        let size: u64 = match f.size { Some(n) => n, None => 0 };
        let use_it = f.is_video && f.size.is_some() && size > 10240;
        proof {
            let a = usable_files(all.take(i as int));
            let b = usable_files(all.take(i + 1));
            assert(use_it == usable(files@[i as int]));
            if use_it {
                assert(b == a.push(files@[i as int]));
                assert(b.drop_last() =~= a);
                assert(total_size(b) == total_size(a) + size);
                assert(usable_files(all).take(b.len() as int) == b);
            } else {
                assert(b == a);
            }
        }
        if use_it {
            count += 1;
            total += size;
            if let Some(t) = f.modified_secs {
                let ts = #[verifier::truncate] (t as i64);
                if ts < earliest_ts {
                    earliest_ts = ts;
                }
            }
        }
        i += 1;
    }
    assert(all.take(all.len() as int) =~= all);
    if count == 0 {
        return None;
    }
    let dv = chars_of(dir_name);
    let pv = chars_of("._work_");
    let mut start: usize = 0;
    assert(dv@.skip(0) =~= dv@);
    proof { reveal_strlit("._work_"); }
    while pv.len() <= dv.len() - start && matches_from(&dv, &pv, start)
        invariant
            start <= dv@.len(),
            pv@ == "._work_"@,
            pv@.len() == 7,
            strip_all_prefix(dir_name@, "._work_"@) == strip_all_prefix(dv@.skip(start as int), "._work_"@),
            dv@ == dir_name@,
        decreases dv.len() - start,
    {
        assert(dv@.skip(start as int).subrange(0, 7) =~= dv@.subrange(start as int, start + 7));
        assert(dv@.skip(start as int).skip(7) =~= dv@.skip(start + 7));
        start += pv.len();
    }
    proof {
        if start + 7 <= dv@.len() {
            assert(dv@.skip(start as int).subrange(0, 7) =~= dv@.subrange(start as int, start + 7));
        }
    }
    let room = string_from_range(&dv, start, dv.len());
    assert(room@ =~= dv@.skip(start as int));
    Some(PendingRecording {
        work_dir: work_dir.to_owned(),
        segment_count: #[verifier::truncate] (count as u32),
        total_bytes: total,
        room_id: room,
        earliest_ts: if earliest_ts == i64::MAX { 0 } else { earliest_ts },
    })
}

fn matches_from(s: &Vec<char>, p: &Vec<char>, start: usize) -> (res: bool)
    requires
        start + p@.len() <= s@.len(),
    ensures
        res == (s@.subrange(start as int, start + p@.len()) == p@),
{
    crate::text::matches_at(s, p, start)
}

proof fn lemma_filter_prefix(all: Seq<PendingFile>, i: int)
    requires
        0 <= i <= all.len(),
    ensures
        usable_files(all.take(i)).len() <= usable_files(all).len(),
        usable_files(all.take(i)) == usable_files(all).take(usable_files(all.take(i)).len() as int),
    decreases all.len() - i,
{
    reveal_with_fuel(Seq::<PendingFile>::filter, 1);
    if i < all.len() {
        lemma_filter_prefix(all, i + 1);
        assert(all.take(i + 1).drop_last() =~= all.take(i));
        let a = usable_files(all.take(i));
        let b = usable_files(all.take(i + 1));
        if usable(all[i]) {
            assert(b == a.push(all[i]));
            assert(b.take(a.len() as int) =~= a);
            assert(usable_files(all).take(a.len() as int) =~= usable_files(all).take(b.len() as int).take(a.len() as int));
        } else {
            assert(b == a);
        }
    } else {
        assert(all.take(i) =~= all);
        assert(usable_files(all).take(usable_files(all).len() as int) =~= usable_files(all));
    }
}

proof fn lemma_usable_len(all: Seq<PendingFile>, i: int)
    requires
        0 <= i <= all.len(),
    ensures
        usable_files(all.take(i)).len() <= i,
    decreases i,
{
    reveal_with_fuel(Seq::<PendingFile>::filter, 1);
    if i > 0 {
        lemma_usable_len(all, i - 1);
        assert(all.take(i).drop_last() =~= all.take(i - 1));
    }
}

} // verus!
