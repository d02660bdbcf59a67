//! Saving a picture: the sinks that it goes to, what its filename may name, and the record of
//! the files that were written.

use crate::ui::sinks::SinkSpec;
use vstd::prelude::*;

verus! {

use crate::strings::{text_of, texts};
use crate::ui::sinks::{resolved_sinks, sink_views};

/// What a filename template may name: the output that a picture shows, and how it was selected.
#[derive(Debug)]
pub struct FilenameContext {
    pub output: Option<String>,
    pub selection: Option<String>,
}

/// A save that can be run on any picture.
#[derive(Debug)]
pub struct SaveFn {
    pub sinks: Vec<SinkSpec>,
    /// How the pictures were selected.
    pub selection_label: String,
}

/// A save to the sinks that were asked for, or to the configured ones where none were.
pub fn sinks_save_fn(
    configured: &Vec<SinkSpec>,
    sinks: &Vec<SinkSpec>,
    selection_label: &str,
) -> (res: SaveFn)
    ensures
        sink_views(res.sinks@) == resolved_sinks(sink_views(sinks@), sink_views(configured@)),
        res.selection_label@ == selection_label@,
{
    let chosen = if sinks.len() == 0 {
        configured
    } else {
        sinks
    };
    let mut out: Vec<SinkSpec> = Vec::new();
    for i in 0..chosen.len()
        invariant
            out@.len() == i,
            forall|k: int| 0 <= k < i ==> (#[trigger] out@[k])@ == chosen@[k]@,
    {
        out.push(chosen[i].copied());
    }
    assert(sink_views(out@) =~= sink_views(chosen@));
    SaveFn { sinks: out, selection_label: selection_label.to_owned() }
}

impl SaveFn {
    /// What the filename of a picture may name. `source` is the output that it was taken from,
    /// where it was taken from a single one.
    pub fn filename_context(&self, source: Option<&str>) -> (res: FilenameContext)
        ensures
            text_of(res.output) == match source {
                Some(name) => Some(name@),
                None => None,
            },
            text_of(res.selection) == Some(self.selection_label@),
    {
        FilenameContext {
            output: match source {
                Some(name) => Some(name.to_owned()),
                None => None,
            },
            selection: Some(self.selection_label.clone()),
        }
    }
}

/// Ends a save. `written` are the files that were written, where the picture could be encoded
/// and every sink took it. Only those are recorded, behind the ones recorded before.
pub fn encode_and_write<E>(written: Result<Vec<String>, E>, collected: &mut Vec<String>) -> (res:
    Result<Vec<String>, E>)
    ensures
        res == written,
        texts(final(collected)@) == texts(old(collected)@) + match written {
            Ok(paths) => texts(paths@),
            Err(_) => Seq::empty(),
        },
{
    match written {
        Ok(paths) => {
            for i in 0..paths.len()
                invariant
                    texts(collected@) == texts(old(collected)@) + texts(paths@).take(i as int),
            {
                let ghost before = collected@;
                collected.push(paths[i].clone());
                assert(texts(collected@) =~= texts(before).push(paths@[i as int]@));
                assert(texts(paths@).take(i + 1) =~= texts(paths@).take(i as int).push(
                    paths@[i as int]@,
                ));
                assert(texts(collected@) =~= texts(old(collected)@) + texts(paths@).take(i + 1));
            }
            assert(texts(paths@).take(paths@.len() as int) =~= texts(paths@));
            Ok(paths)
        },
        Err(e) => Err(e),
    }
}

} // verus!
