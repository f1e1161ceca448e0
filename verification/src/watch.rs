//! The decisions of the watch loop: given what the source and output files looked
//! like at the last look and now, whether to convert everything again or which
//! outputs to write again. Reading the files and converting them is the caller's.
use vstd::prelude::*;
use crate::language::LanguageMode;
use crate::project::{output_path_for, output_path_spec};
use crate::text::str_eq;

verus! {

/// When a file last changed, as the file system reports it: its modification time
/// (seconds and nanoseconds after the epoch, or before it when `after_epoch` is false)
/// and its length.
#[derive(Clone, Copy, Debug, PartialEq, Eq, Structural)]
pub struct FileStamp {
    pub after_epoch: bool,
    pub secs: u64,
    pub nanos: u32,
    pub len: u64,
}

/// The paths of a snapshot, in order.
pub open spec fn source_paths(s: Seq<(String, FileStamp)>) -> Seq<Seq<char>> {
    s.map_values(|e: (String, FileStamp)| e.0@)
}

/// The stamp a snapshot holds for `path`: that of its first entry for it.
pub open spec fn source_stamp(s: Seq<(String, FileStamp)>, path: Seq<char>) -> Option<FileStamp>
    decreases s.len(),
{
    if s.len() == 0 {
        None
    } else if s[0].0@ == path {
        Some(s[0].1)
    } else {
        source_stamp(s.subrange(1, s.len() as int), path)
    }
}

/// The stamp an output snapshot holds for `path` (itself `None` when the output did not
/// exist): that of its first entry for it.
pub open spec fn output_stamp(s: Seq<(String, Option<FileStamp>)>, path: Seq<char>) -> Option<Option<FileStamp>>
    decreases s.len(),
{
    if s.len() == 0 {
        None
    } else if s[0].0@ == path {
        Some(s[0].1)
    } else {
        output_stamp(s.subrange(1, s.len() as int), path)
    }
}

/// Whether two snapshots hold the same source paths in the same order.
pub fn same_source_set(seen: &Vec<(String, FileStamp)>, current: &Vec<(String, FileStamp)>) -> (r: bool)
    ensures
        r == (source_paths(seen@) == source_paths(current@)),
{
    if seen.len() != current.len() {
        proof {
            assert(source_paths(seen@).len() != source_paths(current@).len());
        }
        return false;
    }
    let mut i: usize = 0;
    while i < seen.len()
        invariant
            seen@.len() == current@.len(),
            i <= seen@.len(),
            forall|k: int| 0 <= k < i ==> seen@[k].0@ == current@[k].0@,
        decreases seen@.len() - i,
    {
        if !str_eq(seen[i].0.as_str(), current[i].0.as_str()) {
            proof {
                assert(source_paths(seen@)[i as int] != source_paths(current@)[i as int]);
            }
            return false;
        }
        i = i + 1;
    }
    proof {
        assert(source_paths(seen@) =~= source_paths(current@));
    }
    true
}

/// The stamp `seen` holds for `path`.
fn find_source_stamp(seen: &Vec<(String, FileStamp)>, path: &str) -> (r: Option<FileStamp>)
    ensures
        r == source_stamp(seen@, path@),
{
    let mut i: usize = 0;
    proof {
        assert(seen@.subrange(0, seen@.len() as int) =~= seen@);
    }
    while i < seen.len()
        invariant
            i <= seen@.len(),
            source_stamp(seen@, path@) == source_stamp(seen@.subrange(i as int, seen@.len() as int), path@),
        decreases seen@.len() - i,
    {
        let ghost rest = seen@.subrange(i as int, seen@.len() as int);
        proof {
            assert(rest.subrange(1, rest.len() as int) =~= seen@.subrange(i + 1, seen@.len() as int));
        }
        if str_eq(seen[i].0.as_str(), path) {
            return Some(seen[i].1);
        }
        i = i + 1;
    }
    None
}

/// Whether a source now has a stamp it did not have at the last look.
pub fn source_stamp_changed(seen: &Vec<(String, FileStamp)>, current: &Vec<(String, FileStamp)>) -> (r: bool)
    ensures
        r == exists|i: int| 0 <= i < current@.len() && source_stamp(seen@, current@[i].0@) != Some(current@[i].1),
{
    let mut i: usize = 0;
    while i < current.len()
        invariant
            i <= current@.len(),
            forall|k: int| 0 <= k < i ==> source_stamp(seen@, current@[k].0@) == Some(current@[k].1),
        decreases current@.len() - i,
    {
        match find_source_stamp(seen, current[i].0.as_str()) {
            Some(stamp) => {
                if stamp != current[i].1 {
                    return true;
                }
            },
            None => {
                return true;
            },
        }
        i = i + 1;
    }
    false
}

/// The stamp `outputs` holds for `path`.
fn find_output_stamp(outputs: &Vec<(String, Option<FileStamp>)>, path: &str) -> (r: Option<Option<FileStamp>>)
    ensures
        r == output_stamp(outputs@, path@),
{
    let mut i: usize = 0;
    proof {
        assert(outputs@.subrange(0, outputs@.len() as int) =~= outputs@);
    }
    while i < outputs.len()
        invariant
            i <= outputs@.len(),
            output_stamp(outputs@, path@) == output_stamp(outputs@.subrange(i as int, outputs@.len() as int), path@),
        decreases outputs@.len() - i,
    {
        let ghost rest = outputs@.subrange(i as int, outputs@.len() as int);
        proof {
            assert(rest.subrange(1, rest.len() as int) =~= outputs@.subrange(i + 1, outputs@.len() as int));
        }
        if str_eq(outputs[i].0.as_str(), path) {
            return Some(outputs[i].1);
        }
        i = i + 1;
    }
    None
}

/// Whether two looks at an output saw the same thing.
fn same_output_stamp(a: Option<Option<FileStamp>>, b: Option<Option<FileStamp>>) -> (r: bool)
    ensures
        r == (a == b),
{
    match (a, b) {
        (None, None) => true,
        (Some(None), Some(None)) => true,
        (Some(Some(x)), Some(Some(y))) => x == y,
        _ => false,
    }
}

/// Whether the output of `input_path` was changed or removed since the last look, so
/// that it must be written again; or why its output path cannot be worked out.
pub fn output_needs_recompile(
    src_dir: &str,
    out_dir: &str,
    input_path: &str,
    seen_outputs: &Vec<(String, Option<FileStamp>)>,
    current_outputs: &Vec<(String, Option<FileStamp>)>,
) -> (r: Result<bool, String>)
    ensures
        match output_path_spec(src_dir@, out_dir@, input_path@) {
            Ok(o) => r matches Ok(b) && b == (output_stamp(seen_outputs@, o) != output_stamp(current_outputs@, o)),
            Err(m) => r matches Err(e) && e@ == m,
        },
{
    let output = output_path_for(src_dir, out_dir, input_path)?;
    let before = find_output_stamp(seen_outputs, output.as_str());
    let now = find_output_stamp(current_outputs, output.as_str());
    Ok(!same_output_stamp(before, now))
}

/// What one look at the files asks of the watch loop.
#[derive(Debug)]
pub enum WatchAction {
    /// Convert every source again; first write the editor manifest again when
    /// `write_manifest`.
    Resync { write_manifest: bool },
    /// Convert these sources again, in this order, one by one; then, if `error` is
    /// set, stop with it (the output path of the next source could not be worked out).
    Recompile { inputs: Vec<String>, error: Option<String> },
}

/// Whether a look finds sources added, removed or changed since the last one.
pub open spec fn sources_changed(seen: Seq<(String, FileStamp)>, current: Seq<(String, FileStamp)>) -> bool {
    source_paths(seen) != source_paths(current)
        || exists|i: int| 0 <= i < current.len() && source_stamp(seen, current[i].0@) != Some(current[i].1)
}

/// The sources, in the order of `current`, whose outputs changed between the two looks,
/// up to the first source whose output path cannot be worked out, with that error.
pub open spec fn outputs_to_rewrite(
    src_dir: Seq<char>,
    out_dir: Seq<char>,
    current: Seq<(String, FileStamp)>,
    seen_outputs: Seq<(String, Option<FileStamp>)>,
    current_outputs: Seq<(String, Option<FileStamp>)>,
) -> (Seq<Seq<char>>, Option<Seq<char>>)
    decreases current.len(),
{
    if current.len() == 0 {
        (Seq::empty(), None)
    } else {
        match output_path_spec(src_dir, out_dir, current[0].0@) {
            Err(m) => (Seq::empty(), Some(m)),
            Ok(o) => {
                let rest = outputs_to_rewrite(src_dir, out_dir, current.subrange(1, current.len() as int), seen_outputs, current_outputs);
                if output_stamp(seen_outputs, o) != output_stamp(current_outputs, o) {
                    (seq![current[0].0@] + rest.0, rest.1)
                } else {
                    rest
                }
            },
        }
    }
}

/// What the watch loop does after a look: convert everything again when sources were
/// added, removed or changed (writing the editor manifest first when the set of
/// sources changed and Rust sources are converted); else convert again the sources
/// whose outputs were changed or removed by hand.
pub fn watch_action(
    src_dir: &str,
    out_dir: &str,
    language: LanguageMode,
    seen: &Vec<(String, FileStamp)>,
    current: &Vec<(String, FileStamp)>,
    seen_outputs: &Vec<(String, Option<FileStamp>)>,
    current_outputs: &Vec<(String, Option<FileStamp>)>,
) -> (r: WatchAction)
    ensures
        match r {
            WatchAction::Resync { write_manifest } => sources_changed(seen@, current@) && write_manifest == (
            source_paths(seen@) != source_paths(current@) && (language == LanguageMode::Auto || language
                == LanguageMode::Rust)),
            WatchAction::Recompile { inputs, error } => {
                let plan = outputs_to_rewrite(src_dir@, out_dir@, current@, seen_outputs@, current_outputs@);
                &&& !sources_changed(seen@, current@)
                &&& inputs@.map_values(|s: String| s@) == plan.0
                &&& match plan.1 {
                    Some(m) => error matches Some(e) && e@ == m,
                    None => error is None,
                }
            },
        },
{
    let same_set = same_source_set(seen, current);
    if !same_set {
        return WatchAction::Resync { write_manifest: language.includes_rust() };
    }
    if source_stamp_changed(seen, current) {
        return WatchAction::Resync { write_manifest: false };
    }
    let mut inputs: Vec<String> = Vec::new();
    let mut i: usize = 0;
    proof {
        assert(current@.subrange(0, current@.len() as int) =~= current@);
    }
    while i < current.len()
        invariant
            i <= current@.len(),
            !sources_changed(seen@, current@),
            ({
                let whole = outputs_to_rewrite(src_dir@, out_dir@, current@, seen_outputs@, current_outputs@);
                let rest = outputs_to_rewrite(
                    src_dir@,
                    out_dir@,
                    current@.subrange(i as int, current@.len() as int),
                    seen_outputs@,
                    current_outputs@,
                );
                whole.0 == inputs@.map_values(|s: String| s@) + rest.0 && whole.1 == rest.1
            }),
        decreases current@.len() - i,
    {
        let ghost tail = current@.subrange(i as int, current@.len() as int);
        proof {
            assert(tail.subrange(1, tail.len() as int) =~= current@.subrange(i + 1, current@.len() as int));
            assert(tail[0] == current@[i as int]);
        }
        match output_needs_recompile(src_dir, out_dir, current[i].0.as_str(), seen_outputs, current_outputs) {
            Err(e) => {
                proof {
                    let rest = outputs_to_rewrite(src_dir@, out_dir@, tail, seen_outputs@, current_outputs@);
                    assert(output_path_spec(src_dir@, out_dir@, tail[0].0@) is Err);
                    assert(rest.0 =~= Seq::<Seq<char>>::empty());
                    assert(inputs@.map_values(|s: String| s@) + rest.0 =~= inputs@.map_values(|s: String| s@));
                }
                return WatchAction::Recompile { inputs, error: Some(e) };
            },
            Ok(changed) => {
                if changed {
                    let ghost before = inputs@.map_values(|s: String| s@);
                    inputs.push(current[i].0.clone());
                    proof {
                        assert(inputs@.map_values(|s: String| s@) =~= before.push(current@[i as int].0@));
                        assert(before.push(current@[i as int].0@) =~= before + seq![current@[i as int].0@]);
                    }
                }
            },
        }
        i = i + 1;
    }
    proof {
        assert(current@.subrange(current@.len() as int, current@.len() as int).len() == 0);
        assert(inputs@.map_values(|s: String| s@) + Seq::<Seq<char>>::empty() =~= inputs@.map_values(|s: String| s@));
    }
    WatchAction::Recompile { inputs, error: None }
}

} // verus!
