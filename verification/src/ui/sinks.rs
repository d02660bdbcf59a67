//! Where a picture goes: the sinks that were asked for, and the destination that the user
//! switches between while the overlay is open.

use vstd::prelude::*;

verus! {

use crate::strings::text_of;

/// A clipboard of the session.
#[derive(Clone, Copy, Debug, PartialEq, Eq, Structural)]
pub enum ClipboardKind {
    Regular,
    Primary,
}

/// A sink: a file, at a path or at the configured place, or a clipboard.
#[derive(Debug, PartialEq)]
pub enum SinkSpec {
    File(Option<String>),
    Clipboard(Option<ClipboardKind>),
}

/// The contents of a [`SinkSpec`].
pub enum SinkView {
    File(Option<Seq<char>>),
    Clipboard(Option<ClipboardKind>),
}

impl View for SinkSpec {
    type V = SinkView;

    open spec fn view(&self) -> SinkView {
        match *self {
            SinkSpec::File(path) => SinkView::File(text_of(path)),
            SinkSpec::Clipboard(kind) => SinkView::Clipboard(kind),
        }
    }
}

impl SinkSpec {
    /// An equal sink.
    pub fn copied(&self) -> (res: SinkSpec)
        ensures
            res@ == self@,
    {
        match self {
            SinkSpec::File(Some(path)) => SinkSpec::File(Some(path.clone())),
            SinkSpec::File(None) => SinkSpec::File(None),
            SinkSpec::Clipboard(kind) => SinkSpec::Clipboard(*kind),
        }
    }
}

/// The contents of a list of sinks.
pub open spec fn sink_views(sinks: Seq<SinkSpec>) -> Seq<SinkView> {
    sinks.map_values(|s: SinkSpec| s@)
}

/// The destinations that the user switches between.
#[derive(Clone, Copy, Debug, PartialEq, Eq, Structural)]
pub enum OutputMode {
    File,
    Clipboard,
    Both,
}

impl OutputMode {
    pub open spec fn wants_file(self) -> bool {
        self != OutputMode::Clipboard
    }

    pub open spec fn wants_clipboard(self) -> bool {
        self != OutputMode::File
    }

    /// The destination wants the sink.
    pub open spec fn wants(self, sink: SinkView) -> bool {
        match sink {
            SinkView::File(_) => self.wants_file(),
            SinkView::Clipboard(_) => self.wants_clipboard(),
        }
    }
}

pub open spec fn has_file(sinks: Seq<SinkView>) -> bool {
    exists|i: int| 0 <= i < sinks.len() && #[trigger] sinks[i] is File
}

pub open spec fn has_clipboard(sinks: Seq<SinkView>) -> bool {
    exists|i: int| 0 <= i < sinks.len() && #[trigger] sinks[i] is Clipboard
}

/// The destination of a list of sinks. Without any sink it is a file.
pub open spec fn mode_of(sinks: Seq<SinkView>) -> OutputMode {
    if has_clipboard(sinks) {
        if has_file(sinks) {
            OutputMode::Both
        } else {
            OutputMode::Clipboard
        }
    } else {
        OutputMode::File
    }
}

/// The sinks of the list that the destination wants.
pub open spec fn wanted(sinks: Seq<SinkView>, mode: OutputMode) -> Seq<SinkView>
    decreases sinks.len(),
{
    if sinks.len() == 0 {
        Seq::empty()
    } else if mode.wants(sinks.last()) {
        wanted(sinks.drop_last(), mode).push(sinks.last())
    } else {
        wanted(sinks.drop_last(), mode)
    }
}

/// The sinks for a destination: those of the list that it wants, and a plain one of each kind
/// that it wants and the list lacks.
pub open spec fn sinks_for(sinks: Seq<SinkView>, mode: OutputMode) -> Seq<SinkView> {
    wanted(sinks, mode) + (if mode.wants_file() && !has_file(sinks) {
        seq![SinkView::File(None)]
    } else {
        Seq::empty()
    }) + (if mode.wants_clipboard() && !has_clipboard(sinks) {
        seq![SinkView::Clipboard(None)]
    } else {
        Seq::empty()
    })
}

/// The sinks that were asked for, and the destination of the moment. Switching between
/// destinations forgets none of the sinks.
#[derive(Debug)]
pub struct SinkSelection {
    pub sinks: Vec<SinkSpec>,
    pub current: OutputMode,
}

impl SinkSelection {
    /// The selection of a list of sinks.
    pub fn from_sinks(sinks: &Vec<SinkSpec>) -> (res: SinkSelection)
        ensures
            sink_views(res.sinks@) == sink_views(sinks@),
            res.current == mode_of(sink_views(sinks@)),
    {
        let mut kept: Vec<SinkSpec> = Vec::new();
        let mut file: bool = false;
        let mut clipboard: bool = false;
        for i in 0..sinks.len()
            invariant
                kept@.len() == i,
                forall|k: int| 0 <= k < i ==> (#[trigger] kept@[k])@ == sinks@[k]@,
                file == exists|k: int|
                    0 <= k < i && #[trigger] sink_views(sinks@)[k] is File,
                clipboard == exists|k: int|
                    0 <= k < i && #[trigger] sink_views(sinks@)[k] is Clipboard,
        {
            let ghost views = sink_views(sinks@);
            assert(views[i as int] == sinks@[i as int]@);
            match &sinks[i] {
                SinkSpec::File(_) => {
                    file = true;
                },
                SinkSpec::Clipboard(_) => {
                    clipboard = true;
                },
            }
            kept.push(sinks[i].copied());
        }
        assert(sink_views(kept@) =~= sink_views(sinks@));
        let current = if clipboard {
            if file {
                OutputMode::Both
            } else {
                OutputMode::Clipboard
            }
        } else {
            OutputMode::File
        };
        SinkSelection { sinks: kept, current }
    }

    /// The destination of the moment.
    pub fn mode(&self) -> (res: OutputMode)
        ensures
            res == self.current,
    {
        self.current
    }

    /// Switches to another destination.
    pub fn set_mode(&mut self, mode: OutputMode)
        ensures
            final(self).current == mode,
            final(self).sinks == old(self).sinks,
    {
        self.current = mode;
    }

    /// The sinks to write to.
    pub fn to_sinks(&self) -> (res: Vec<SinkSpec>)
        ensures
            sink_views(res@) == sinks_for(sink_views(self.sinks@), self.current),
    {
        let file_wanted: bool = self.current != OutputMode::Clipboard;
        let clipboard_wanted: bool = self.current != OutputMode::File;
        let mut out: Vec<SinkSpec> = Vec::new();
        let mut file: bool = false;
        let mut clipboard: bool = false;
        assert(sink_views(out@) =~= wanted(sink_views(self.sinks@).take(0), self.current));
        for i in 0..self.sinks.len()
            invariant
                file_wanted == self.current.wants_file(),
                clipboard_wanted == self.current.wants_clipboard(),
                sink_views(out@) == wanted(sink_views(self.sinks@).take(i as int), self.current),
                file == exists|k: int|
                    0 <= k < i && #[trigger] sink_views(self.sinks@)[k] is File,
                clipboard == exists|k: int|
                    0 <= k < i && #[trigger] sink_views(self.sinks@)[k] is Clipboard,
        {
            let ghost views = sink_views(self.sinks@);
            assert(views.take(i + 1).drop_last() =~= views.take(i as int));
            assert(views.take(i + 1).last() == self.sinks@[i as int]@);
            assert(views[i as int] == self.sinks@[i as int]@);
            let take: bool = match &self.sinks[i] {
                SinkSpec::File(_) => {
                    file = true;
                    file_wanted
                },
                SinkSpec::Clipboard(_) => {
                    clipboard = true;
                    clipboard_wanted
                },
            };
            if take {
                push_sink(&mut out, self.sinks[i].copied());
            }
        }
        proof {
            let views = sink_views(self.sinks@);
            assert(views.take(views.len() as int) =~= views);
        }
        if file_wanted && !file {
            push_sink(&mut out, SinkSpec::File(None));
        }
        if clipboard_wanted && !clipboard {
            push_sink(&mut out, SinkSpec::Clipboard(None));
        }
        assert(sink_views(out@) =~= sinks_for(sink_views(self.sinks@), self.current));
        out
    }
}

fn push_sink(out: &mut Vec<SinkSpec>, sink: SinkSpec)
    ensures
        sink_views(final(out)@) == sink_views(old(out)@).push(sink@),
{
    out.push(sink);
    assert(sink_views(out@) =~= sink_views(old(out)@).push(sink@));
}

/// The sinks that were asked for, or the configured ones where none were.
pub open spec fn resolved_sinks(asked: Seq<SinkView>, configured: Seq<SinkView>) -> Seq<SinkView> {
    if asked.len() == 0 {
        configured
    } else {
        asked
    }
}

/// The selection of the sinks that were asked for, or of the configured ones where none were.
pub fn resolve_sinks(configured: &Vec<SinkSpec>, asked: &Vec<SinkSpec>) -> (res: SinkSelection)
    ensures
        sink_views(res.sinks@) == resolved_sinks(sink_views(asked@), sink_views(configured@)),
        res.current == mode_of(resolved_sinks(sink_views(asked@), sink_views(configured@))),
{
    if asked.len() == 0 {
        SinkSelection::from_sinks(configured)
    } else {
        SinkSelection::from_sinks(asked)
    }
}

/// Records the destination that the user has picked.
pub fn set_output_mode(selection: &mut SinkSelection, mode: OutputMode)
    ensures
        final(selection).current == mode,
        final(selection).sinks == old(selection).sinks,
{
    selection.set_mode(mode);
}

/// Records the destination that a selector came back with, and tells the sinks to write to.
pub fn adopt_output_mode(selection: &mut SinkSelection, mode: OutputMode) -> (res: Vec<SinkSpec>)
    ensures
        final(selection).current == mode,
        final(selection).sinks == old(selection).sinks,
        sink_views(res@) == sinks_for(sink_views(old(selection).sinks@), mode),
{
    selection.set_mode(mode);
    selection.to_sinks()
}

// ---- laws ----------------------------------------------------------------------------------
/// The destination of a list of sinks wants all of them, and lacks none: writing to it writes
/// to exactly the sinks that were asked for.
pub proof fn asked_sinks_are_written_to(sinks: Seq<SinkView>)
    requires
        sinks.len() > 0,
    ensures
        sinks_for(sinks, mode_of(sinks)) == sinks,
{
    let mode = mode_of(sinks);
    assert(sinks[0] is File || sinks[0] is Clipboard);
    lemma_all_wanted(sinks, mode, sinks.len());
    assert(sinks.take(sinks.len() as int) =~= sinks);
    assert(sinks_for(sinks, mode) =~= sinks);
}

proof fn lemma_all_wanted(sinks: Seq<SinkView>, mode: OutputMode, n: nat)
    requires
        n <= sinks.len(),
        mode == mode_of(sinks),
    ensures
        wanted(sinks.take(n as int), mode) == sinks.take(n as int),
    decreases n,
{
    if n > 0 {
        let front = sinks.take(n as int);
        lemma_all_wanted(sinks, mode, (n - 1) as nat);
        assert(front.drop_last() =~= sinks.take(n - 1));
        assert(front.last() == sinks[n - 1]);
        assert(wanted(front, mode) =~= front);
    } else {
        assert(wanted(sinks.take(0), mode) =~= sinks.take(0));
    }
}

/// A destination is written to with sinks that it wants, and with none of another kind.
pub proof fn a_destination_gets_only_its_sinks(sinks: Seq<SinkView>, mode: OutputMode, i: int)
    requires
        0 <= i < sinks_for(sinks, mode).len(),
    ensures
        mode.wants(sinks_for(sinks, mode)[i]),
{
    lemma_wanted_is_wanted(sinks, mode);
    let kept = wanted(sinks, mode);
    if i < kept.len() {
        assert(sinks_for(sinks, mode)[i] == kept[i]);
    }
}

proof fn lemma_wanted_is_wanted(sinks: Seq<SinkView>, mode: OutputMode)
    ensures
        forall|i: int|
            0 <= i < wanted(sinks, mode).len() ==> mode.wants(#[trigger] wanted(sinks, mode)[i]),
    decreases sinks.len(),
{
    if sinks.len() > 0 {
        lemma_wanted_is_wanted(sinks.drop_last(), mode);
        let front = wanted(sinks.drop_last(), mode);
        assert forall|i: int| 0 <= i < wanted(sinks, mode).len() implies mode.wants(
            #[trigger] wanted(sinks, mode)[i],
        ) by {
            if i < front.len() {
                assert(wanted(sinks, mode)[i] == front[i]);
            }
        }
    }
}

/// Each destination wants what it is called after: a file, a clipboard, or either.
pub proof fn a_destination_wants_what_it_is_called_after(sink: SinkView)
    ensures
        OutputMode::File.wants(sink) <==> sink is File,
        OutputMode::Clipboard.wants(sink) <==> sink is Clipboard,
        OutputMode::Both.wants(sink),
{
}

/// A list of files alone goes to files, one of clipboards alone to clipboards, and a list of
/// both to both. Without any sink it goes to a file.
pub proof fn sinks_tell_their_destination(sinks: Seq<SinkView>)
    ensures
        (forall|i: int| 0 <= i < sinks.len() ==> #[trigger] sinks[i] is File) <==> mode_of(sinks)
            == OutputMode::File,
        sinks.len() > 0 ==> ((forall|i: int|
            0 <= i < sinks.len() ==> #[trigger] sinks[i] is Clipboard) <==> mode_of(sinks)
            == OutputMode::Clipboard),
{
    if mode_of(sinks) == OutputMode::File {
        assert forall|i: int| 0 <= i < sinks.len() implies #[trigger] sinks[i] is File by {}
    }
    if sinks.len() > 0 {
        assert(sinks[0] is File || sinks[0] is Clipboard);
        if mode_of(sinks) == OutputMode::Clipboard {
            assert forall|i: int| 0 <= i < sinks.len() implies #[trigger] sinks[i] is Clipboard by {}
        }
    }
}

/// Of the sinks that were asked for, a destination is written to with every one that it wants.
pub proof fn every_wanted_sink_is_written_to(sinks: Seq<SinkView>, mode: OutputMode, i: int)
    requires
        0 <= i < sinks.len(),
        mode.wants(sinks[i]),
    ensures
        sinks_for(sinks, mode).contains(sinks[i]),
{
    lemma_wanted_keeps(sinks, mode, i);
    let kept = wanted(sinks, mode);
    let k = choose|k: int| 0 <= k < kept.len() && kept[k] == sinks[i];
    assert(sinks_for(sinks, mode)[k] == sinks[i]);
}

proof fn lemma_wanted_keeps(sinks: Seq<SinkView>, mode: OutputMode, i: int)
    requires
        0 <= i < sinks.len(),
        mode.wants(sinks[i]),
    ensures
        wanted(sinks, mode).contains(sinks[i]),
    decreases sinks.len(),
{
    let front = wanted(sinks.drop_last(), mode);
    if i == sinks.len() - 1 {
        assert(wanted(sinks, mode)[front.len() as int] == sinks[i]);
    } else {
        lemma_wanted_keeps(sinks.drop_last(), mode, i);
        let k = choose|k: int| 0 <= k < front.len() && front[k] == sinks[i];
        assert(wanted(sinks, mode)[k] == sinks[i]);
    }
}

/// A destination gets a sink of each kind that it wants, and a sink that was not asked for only
/// where none of its kind was: then it is a plain one.
pub proof fn a_destination_lacks_nothing(sinks: Seq<SinkView>, mode: OutputMode, i: int)
    requires
        0 <= i < sinks_for(sinks, mode).len(),
    ensures
        mode != OutputMode::Clipboard ==> has_file(sinks_for(sinks, mode)),
        mode != OutputMode::File ==> has_clipboard(sinks_for(sinks, mode)),
        sinks.contains(sinks_for(sinks, mode)[i]) || (sinks_for(sinks, mode)[i] == SinkView::File(
            None,
        ) && !has_file(sinks)) || (sinks_for(sinks, mode)[i] == SinkView::Clipboard(None)
            && !has_clipboard(sinks)),
{
    let all = sinks_for(sinks, mode);
    let kept = wanted(sinks, mode);
    let file_added = mode.wants_file() && !has_file(sinks);
    let clipboard_added = mode.wants_clipboard() && !has_clipboard(sinks);
    if mode != OutputMode::Clipboard {
        if has_file(sinks) {
            let k = choose|k: int| 0 <= k < sinks.len() && #[trigger] sinks[k] is File;
            every_wanted_sink_is_written_to(sinks, mode, k);
            let j = choose|j: int| 0 <= j < all.len() && all[j] == sinks[k];
            assert(all[j] is File);
        } else {
            assert(all[kept.len() as int] is File);
        }
    }
    if mode != OutputMode::File {
        if has_clipboard(sinks) {
            let k = choose|k: int| 0 <= k < sinks.len() && #[trigger] sinks[k] is Clipboard;
            every_wanted_sink_is_written_to(sinks, mode, k);
            let j = choose|j: int| 0 <= j < all.len() && all[j] == sinks[k];
            assert(all[j] is Clipboard);
        } else {
            assert(all[all.len() - 1] is Clipboard);
        }
    }
    if i < kept.len() {
        lemma_wanted_was_asked_for(sinks, mode, i);
        assert(all[i] == kept[i]);
    }
}

proof fn lemma_wanted_was_asked_for(sinks: Seq<SinkView>, mode: OutputMode, i: int)
    requires
        0 <= i < wanted(sinks, mode).len(),
    ensures
        sinks.contains(wanted(sinks, mode)[i]),
    decreases sinks.len(),
{
    let front = wanted(sinks.drop_last(), mode);
    if i < front.len() {
        lemma_wanted_was_asked_for(sinks.drop_last(), mode, i);
        let k = choose|k: int|
            0 <= k < sinks.drop_last().len() && sinks.drop_last()[k] == front[i];
        assert(sinks[k] == wanted(sinks, mode)[i]);
    } else {
        assert(sinks[sinks.len() - 1] == wanted(sinks, mode)[i]);
    }
}

/// What was asked for on the command line wins over what is configured, which serves only where
/// nothing was asked for.
pub proof fn asking_wins_over_the_configuration(
    asked: Seq<SinkView>,
    configured: Seq<SinkView>,
    other: Seq<SinkView>,
)
    ensures
        asked.len() > 0 ==> resolved_sinks(asked, configured) == asked,
        asked.len() > 0 ==> resolved_sinks(asked, configured) == resolved_sinks(asked, other),
        resolved_sinks(Seq::empty(), configured) == configured,
{
}

} // verus!
