//! The catalog: every usable mode of every active display, sorted, together
//! with the mode each display is in.

use crate::errors::{convert_result, ModeError};
use crate::mode::{DisplayIndex, Mode, ModeRecord};
use crate::order::{arranged, catalog_sorted, sort_modes};
use crate::specifier::{parse_specifier, pattern_compiles, wanted_mode, MODE_PATTERN};
use vstd::prelude::*;
use vstd::seq_lib::*;
use vstd::string::*;

verus! {

/// The flag of a mode that the platform holds valid for the display.
pub const DISPLAY_MODE_VALID_FLAG: u32 = 0x0000_0001;

/// The flag of a mode that the platform holds safe for the display.
pub const DISPLAY_MODE_SAFE_FLAG: u32 = 0x0000_0002;

/// The most displays that a display index can number.
pub const MAX_DISPLAYS: usize = 256;

/// Whether a mode with these flags belongs in a catalog: it is valid or safe.
pub open spec fn usable(io_flags: u32) -> bool {
    io_flags & (DISPLAY_MODE_VALID_FLAG | DISPLAY_MODE_SAFE_FLAG) != 0
}

/// What the platform reports of one active display: its identifier, the mode
/// it is in, and all its modes, duplicates of low resolution included. An
/// answer that the platform did not give is `None`.
#[derive(Debug)]
pub struct DisplayReport {
    pub id: u32,
    pub current: Option<ModeRecord>,
    pub modes: Option<Vec<ModeRecord>>,
}

/// Whether the platform answered both questions about the display.
pub open spec fn complete(report: DisplayReport) -> bool {
    report.current.is_some() && report.modes.is_some()
}

/// Whether `d` is the first display with an answer missing.
pub open spec fn first_incomplete(reports: Seq<DisplayReport>, d: int) -> bool {
    &&& 0 <= d < reports.len()
    &&& !complete(reports[d])
    &&& forall|k: int| 0 <= k < d ==> complete(#[trigger] reports[k])
}

/// The records that were reported for the display.
pub open spec fn reported_records(report: DisplayReport) -> Seq<ModeRecord> {
    match report.modes {
        Some(records) => records@,
        None => Seq::empty(),
    }
}

/// The usable ones among `records`, as modes of `display`, in their order.
pub open spec fn display_modes(display: DisplayIndex, records: Seq<ModeRecord>) -> Seq<Mode>
    decreases records.len(),
{
    if records.len() == 0 {
        Seq::empty()
    } else {
        let before = display_modes(display, records.drop_last());
        if usable(records.last().io_flags) {
            before.push(Mode::of_record(display, records.last()))
        } else {
            before
        }
    }
}

/// The usable modes of all the displays, display after display, each numbered
/// by its position.
pub open spec fn enumerated_modes(reports: Seq<DisplayReport>) -> Seq<Mode>
    decreases reports.len(),
{
    if reports.len() == 0 {
        Seq::empty()
    } else {
        enumerated_modes(reports.drop_last()) + display_modes(
            (reports.len() - 1) as DisplayIndex,
            reported_records(reports.last()),
        )
    }
}

/// The mode that display `k` is reported to be in.
pub open spec fn reported_current(reports: Seq<DisplayReport>, k: int) -> Mode {
    Mode::of_record(k as DisplayIndex, reports[k].current.unwrap())
}

/// What a `ScreenResolution` holds.
pub struct Catalog {
    /// The identifiers of the active displays, by display index.
    pub displays: Seq<u32>,
    /// The mode each display is in, by display index.
    pub currents: Seq<Mode>,
    /// The usable modes of all displays, in catalog order.
    pub modes: Seq<Mode>,
}

/// Whether `catalog` is the catalog of what `reports` say: the displays and
/// their current modes by index, and the usable modes of all displays
/// arranged in catalog order, which holds the same modes and is sorted.
pub open spec fn catalog_of(reports: Seq<DisplayReport>, catalog: Catalog) -> bool {
    &&& catalog.displays =~= Seq::new(reports.len(), |k: int| reports[k].id)
    &&& catalog.currents =~= Seq::new(reports.len(), |k: int| reported_current(reports, k))
    &&& catalog.modes == arranged(enumerated_modes(reports))
    &&& catalog_sorted(catalog.modes)
    &&& catalog.modes.to_multiset() == enumerated_modes(reports).to_multiset()
}

/// The state of one run: the active displays and the catalog of their modes.
#[derive(Debug)]
pub struct ScreenResolution {
    displays: Vec<u32>,
    currents: Vec<Mode>,
    modes: Vec<Mode>,
}

impl View for ScreenResolution {
    type V = Catalog;

    closed spec fn view(&self) -> Catalog {
        Catalog { displays: self.displays@, currents: self.currents@, modes: self.modes@ }
    }
}

/// Whether every mode of `modes` carries a handle and belongs to one of the
/// first `displays` displays.
pub open spec fn all_enumerated(modes: Seq<Mode>, displays: int) -> bool {
    forall|k: int|
        0 <= k < modes.len() ==> (#[trigger] modes[k]).native_handle.is_some() && modes[k].display
            < displays
}

/// The invariant of a catalog.
pub open spec fn well_formed(catalog: Catalog) -> bool {
    &&& catalog.displays.len() == catalog.currents.len()
    &&& catalog.displays.len() <= MAX_DISPLAYS
    &&& forall|k: int|
        0 <= k < catalog.currents.len() ==> (#[trigger] catalog.currents[k]).display == k
    &&& catalog_sorted(catalog.modes)
    &&& all_enumerated(catalog.modes, catalog.displays.len() as int)
}

proof fn lemma_display_modes_enumerated(display: DisplayIndex, records: Seq<ModeRecord>)
    ensures
        all_enumerated(display_modes(display, records), display + 1),
    decreases records.len(),
{
    if records.len() > 0 {
        lemma_display_modes_enumerated(display, records.drop_last());
    }
}

proof fn lemma_enumerated_modes_enumerated(reports: Seq<DisplayReport>)
    requires
        reports.len() <= MAX_DISPLAYS,
    ensures
        all_enumerated(enumerated_modes(reports), reports.len() as int),
    decreases reports.len(),
{
    if reports.len() > 0 {
        lemma_enumerated_modes_enumerated(reports.drop_last());
        lemma_display_modes_enumerated(
            (reports.len() - 1) as DisplayIndex,
            reported_records(reports.last()),
        );
    }
}

/// A listing: the text of each mode, each followed by a line feed.
pub open spec fn listing(modes: Seq<Mode>, long: bool) -> Seq<char>
    decreases modes.len(),
{
    if modes.len() == 0 {
        Seq::empty()
    } else {
        listing(modes.drop_last(), long) + modes.last().mode_text(long) + "\n"@
    }
}

/// Whether display `d` is there and in the mode `requested`.
pub open spec fn already_current(catalog: Catalog, requested: Mode, d: DisplayIndex) -> bool {
    d < catalog.currents.len() && catalog.currents[d as int].same_as(&requested)
}

/// Whether entry `k` of `modes` is the first that is the same as `wanted`.
pub open spec fn first_match(modes: Seq<Mode>, wanted: Mode, k: int) -> bool {
    &&& 0 <= k < modes.len()
    &&& modes[k].same_as(&wanted)
    &&& forall|j: int| 0 <= j < k ==> !(#[trigger] modes[j]).same_as(&wanted)
}

/// Whether some entry of `modes` is the same as `wanted`.
pub open spec fn has_match(modes: Seq<Mode>, wanted: Mode) -> bool {
    exists|k: int| first_match(modes, wanted, k)
}

/// The place of the first entry of `modes` that is the same as `wanted`.
pub open spec fn first_match_index(modes: Seq<Mode>, wanted: Mode) -> int {
    choose|k: int| first_match(modes, wanted, k)
}

/// A change of mode that has been decided: the display by its identifier,
/// and the entry of the catalog whose handle is to be applied.
#[derive(Clone, Copy, Debug)]
pub struct ModeChange {
    pub display_id: u32,
    pub mode: Mode,
}

/// What is to be done to put the display of `wanted` into that mode. A
/// display that is not there is an error; so is a mode that the display is
/// in, which leaves nothing to be done; so is a mode that no entry of the
/// catalog is the same as. Otherwise the first such entry is to be applied.
pub open spec fn resolution(catalog: Catalog, wanted: Mode) -> Result<ModeChange, ModeError> {
    if wanted.display >= catalog.displays.len() {
        Err(ModeError::UnknownDisplay(wanted.display))
    } else if already_current(catalog, wanted, wanted.display) {
        Err(ModeError::AlreadyCurrent)
    } else if !has_match(catalog.modes, wanted) {
        Err(ModeError::NoMatchingMode)
    } else {
        Ok(
            ModeChange {
                display_id: catalog.displays[wanted.display as int],
                mode: catalog.modes[first_match_index(catalog.modes, wanted)],
            },
        )
    }
}

/// Whether `r` is what setting display `d` to the mode that `text` specifies
/// comes to: the error of reading `text`, or else the resolution of the mode
/// that it specifies.
pub open spec fn set_outcome(
    catalog: Catalog,
    text: Seq<char>,
    d: DisplayIndex,
    r: Result<ModeChange, ModeError>,
) -> bool {
    if !pattern_compiles(MODE_PATTERN@) {
        r == Err::<ModeChange, ModeError>(ModeError::PatternRejected)
    } else {
        match wanted_mode(text, d) {
            None => r matches Err(ModeError::InvalidModeSpecifier(carried)) && carried@ == text,
            Some(wanted) => r == resolution(catalog, wanted),
        }
    }
}

/// Only one entry is the first that is the same as `wanted`.
pub proof fn lemma_first_match_unique(modes: Seq<Mode>, wanted: Mode, k: int)
    requires
        first_match(modes, wanted, k),
    ensures
        has_match(modes, wanted),
        first_match_index(modes, wanted) == k,
{
    let c = first_match_index(modes, wanted);
    assert(first_match(modes, wanted, c));
    if c < k {
        assert(!modes[c].same_as(&wanted));
    }
    if k < c {
        assert(!modes[k].same_as(&wanted));
    }
}

/// Where no entry is the same as `wanted`, none is the first.
pub proof fn lemma_no_match(modes: Seq<Mode>, wanted: Mode)
    requires
        forall|j: int| 0 <= j < modes.len() ==> !(#[trigger] modes[j]).same_as(&wanted),
    ensures
        !has_match(modes, wanted),
{
    if has_match(modes, wanted) {
        let c = first_match_index(modes, wanted);
        assert(first_match(modes, wanted, c));
        assert(!modes[c].same_as(&wanted));
    }
}

/// A specifier of the mode that its display is in changes nothing: setting it
/// is answered with `AlreadyCurrent`, so that no change comes out of it for
/// which a session could be begun.
pub proof fn lemma_current_mode_is_refused(
    catalog: Catalog,
    text: Seq<char>,
    d: DisplayIndex,
    r: Result<ModeChange, ModeError>,
)
    requires
        pattern_compiles(MODE_PATTERN@),
        d < catalog.displays.len(),
        wanted_mode(text, d) matches Some(wanted) && already_current(catalog, wanted, d),
        set_outcome(catalog, text, d, r),
    ensures
        r == Err::<ModeChange, ModeError>(ModeError::AlreadyCurrent),
{
}

/// Renders the listing of `modes`.
fn render_listing(modes: &Vec<Mode>, long: bool) -> (text: String)
    ensures
        text@ == listing(modes@, long),
{
    let mut text = String::new();
    let mut k: usize = 0;
    assert(modes@.take(0) =~= Seq::<Mode>::empty());
    while k < modes.len()
        invariant
            k <= modes.len(),
            text@ == listing(modes@.take(k as int), long),
        decreases modes.len() - k,
    {
        let line = modes[k].print_mode(long);
        proof {
            assert(modes@.take(k + 1).drop_last() =~= modes@.take(k as int));
            assert(modes@.take(k + 1).last() == modes@[k as int]);
        }
        text.append(line.as_str());
        text.append("\n");
        k = k + 1;
    }
    assert(modes@.take(k as int) =~= modes@);
    text
}

impl ScreenResolution {
    #[verifier::type_invariant]
    closed spec fn inv(&self) -> bool {
        well_formed(self@)
    }

    /// The identifiers of the active displays, by display index.
    pub fn displays(&self) -> (displays: &Vec<u32>)
        ensures
            displays@ == self@.displays,
            well_formed(self@),
    {
        proof {
            use_type_invariant(self);
        }
        &self.displays
    }

    /// The mode each display is in, by display index.
    pub fn currents(&self) -> (currents: &Vec<Mode>)
        ensures
            currents@ == self@.currents,
            well_formed(self@),
    {
        proof {
            use_type_invariant(self);
        }
        &self.currents
    }

    /// The catalog: the usable modes of every display, sorted.
    pub fn modes(&self) -> (modes: &Vec<Mode>)
        ensures
            modes@ == self@.modes,
            well_formed(self@),
    {
        proof {
            use_type_invariant(self);
        }
        &self.modes
    }

    /// Builds the catalog from what the platform reported: the list of the
    /// active displays, or the error code in its place.
    pub fn new(enumeration: Result<Vec<DisplayReport>, i32>) -> (r: Result<
        ScreenResolution,
        ModeError,
    >)
        ensures
            match r {
                Ok(state) => enumeration matches Ok(reports) && reports@.len() <= MAX_DISPLAYS && (
                forall|k: int| 0 <= k < reports@.len() ==> complete(#[trigger] reports@[k]))
                    && catalog_of(reports@, state@),
                Err(ModeError::ActiveDisplays(e)) => enumeration == Err::<Vec<DisplayReport>, i32>(
                    e.error,
                ),
                Err(ModeError::TooManyDisplays) => enumeration matches Ok(reports) && reports@.len()
                    > MAX_DISPLAYS,
                Err(ModeError::NoCurrentMode(d)) => enumeration matches Ok(reports) && reports@.len()
                    <= MAX_DISPLAYS && first_incomplete(reports@, d as int)
                    && reports@[d as int].current.is_none(),
                Err(ModeError::NoDisplayModes(d)) => enumeration matches Ok(reports)
                    && reports@.len() <= MAX_DISPLAYS && first_incomplete(reports@, d as int)
                    && reports@[d as int].current.is_some(),
                Err(_) => false,
            },
    {
        let reports = match convert_result(enumeration) {
            Ok(reports) => reports,
            Err(e) => {
                return Err(ModeError::ActiveDisplays(e));
            },
        };
        if reports.len() > MAX_DISPLAYS {
            return Err(ModeError::TooManyDisplays);
        }
        let mut displays: Vec<u32> = Vec::new();
        let mut currents: Vec<Mode> = Vec::new();
        let mut modes: Vec<Mode> = Vec::with_capacity(50);
        let mut i: usize = 0;
        assert(reports@.take(0) =~= Seq::<DisplayReport>::empty());
        while i < reports.len()
            invariant
                enumeration == Ok::<Vec<DisplayReport>, i32>(reports),
                i <= reports.len() <= MAX_DISPLAYS,
                forall|k: int| 0 <= k < i ==> complete(#[trigger] reports@[k]),
                displays@ =~= Seq::new(i as nat, |k: int| reports@[k].id),
                currents@ =~= Seq::new(i as nat, |k: int| reported_current(reports@, k)),
                modes@ == enumerated_modes(reports@.take(i as int)),
            decreases reports.len() - i,
        {
            let report = &reports[i];
            let display = i as DisplayIndex;
            let current = match report.current {
                Some(record) => Mode::from(display, record),
                None => {
                    return Err(ModeError::NoCurrentMode(display));
                },
            };
            let records = match &report.modes {
                Some(records) => records,
                None => {
                    return Err(ModeError::NoDisplayModes(display));
                },
            };
            let ghost before = modes@;
            let mut j: usize = 0;
            assert(records@.take(0) =~= Seq::<ModeRecord>::empty());
            while j < records.len()
                invariant
                    j <= records.len(),
                    modes@ == before + display_modes(display, records@.take(j as int)),
                decreases records.len() - j,
            {
                let record = records[j];
                proof {
                    assert(records@.take(j + 1).drop_last() =~= records@.take(j as int));
                    assert(records@.take(j + 1).last() == record);
                }
                if record.io_flags & (DISPLAY_MODE_VALID_FLAG | DISPLAY_MODE_SAFE_FLAG) != 0 {
                    modes.push(Mode::from(display, record));
                }
                j = j + 1;
                assert(modes@ =~= before + display_modes(display, records@.take(j as int)));
            }
            displays.push(report.id);
            currents.push(current);
            proof {
                assert(records@.take(j as int) =~= records@);
                assert(reports@.take(i + 1).drop_last() =~= reports@.take(i as int));
                assert(reports@.take(i + 1).last() == reports@[i as int]);
            }
            i = i + 1;
        }
        let sorted = sort_modes(&modes);
        proof {
            broadcast use group_to_multiset_ensures;

            assert(reports@.take(i as int) =~= reports@);
            lemma_enumerated_modes_enumerated(reports@);
            assert forall|k: int| 0 <= k < sorted@.len() implies (#[trigger] sorted@[k])
                .native_handle.is_some() && sorted@[k].display < reports@.len() by {
                assert(sorted@.contains(sorted@[k]));
                assert(sorted@.to_multiset().count(sorted@[k]) > 0);
                assert(modes@.to_multiset().count(sorted@[k]) > 0);
                assert(modes@.contains(sorted@[k]));
                let w = choose|w: int| 0 <= w < modes@.len() && modes@[w] == sorted@[k];
                assert(modes@[w].native_handle.is_some());
            }
        }
        Ok(ScreenResolution { displays, currents, modes: sorted })
    }

    /// The listing of the catalog, a line for each mode.
    pub fn list_modes(&self, long: bool) -> (text: String)
        ensures
            text@ == listing(self@.modes, long),
    {
        render_listing(&self.modes, long)
    }

    /// The listing of the mode that each display is in, a line for each
    /// display.
    pub fn print_current_mode(&self, long: bool) -> (text: String)
        ensures
            text@ == listing(self@.currents, long),
    {
        render_listing(&self.currents, long)
    }

    /// Reads `mode` as a mode specifier for `display`.
    pub fn parse_wanted_mode(mode: &str, display: DisplayIndex) -> (r: Result<Mode, ModeError>)
        ensures
            match r {
                Ok(wanted) => pattern_compiles(MODE_PATTERN@) && wanted_mode(mode@, display)
                    == Some(wanted),
                Err(ModeError::PatternRejected) => !pattern_compiles(MODE_PATTERN@),
                Err(ModeError::InvalidModeSpecifier(carried)) => pattern_compiles(MODE_PATTERN@)
                    && wanted_mode(mode@, display).is_none() && carried@ == mode@,
                Err(_) => false,
            },
    {
        parse_specifier(mode, display)
    }

    /// Whether `requested` is the mode that display `display_index` is in.
    pub fn is_already_current(&self, requested: &Mode, display_index: DisplayIndex) -> (r: bool)
        ensures
            r == already_current(self@, *requested, display_index),
    {
        proof {
            use_type_invariant(self);
        }
        let d = display_index as usize;
        d < self.currents.len() && self.currents[d] == *requested
    }

    /// Decides what is to be done to put the display of `wanted` into that
    /// mode.
    pub fn resolve(&self, wanted: &Mode) -> (r: Result<ModeChange, ModeError>)
        ensures
            r == resolution(self@, *wanted),
            r matches Ok(change) ==> change.mode.native_handle.is_some(),
    {
        proof {
            use_type_invariant(self);
        }
        let d = wanted.display as usize;
        if d >= self.displays.len() {
            return Err(ModeError::UnknownDisplay(wanted.display));
        }
        if self.is_already_current(wanted, wanted.display) {
            return Err(ModeError::AlreadyCurrent);
        }
        let mut k: usize = 0;
        while k < self.modes.len()
            invariant
                k <= self.modes.len(),
                d == wanted.display,
                d < self.displays.len(),
                !already_current(self@, *wanted, wanted.display),
                well_formed(self@),
                forall|j: int| 0 <= j < k ==> !(#[trigger] self.modes@[j]).same_as(wanted),
            decreases self.modes.len() - k,
        {
            if self.modes[k] == *wanted {
                proof {
                    lemma_first_match_unique(self@.modes, *wanted, k as int);
                }
                return Ok(ModeChange { display_id: self.displays[d], mode: self.modes[k] });
            }
            k = k + 1;
        }
        proof {
            lemma_no_match(self@.modes, *wanted);
        }
        Err(ModeError::NoMatchingMode)
    }

    /// Decides what is to be done to put display `display_index` into the
    /// mode that `mode` specifies.
    pub fn set_current_mode(&self, mode: &str, display_index: DisplayIndex) -> (r: Result<
        ModeChange,
        ModeError,
    >)
        ensures
            set_outcome(self@, mode@, display_index, r),
            r matches Ok(change) ==> change.mode.native_handle.is_some(),
    {
        match ScreenResolution::parse_wanted_mode(mode, display_index) {
            Ok(wanted) => self.resolve(&wanted),
            Err(e) => Err(e),
        }
    }

    /// The labels that a chooser shows, one for each mode of the catalog and
    /// in its order.
    pub fn selections(&self, long: bool) -> (labels: Vec<String>)
        ensures
            labels@.len() == self@.modes.len(),
            forall|k: int|
                0 <= k < labels@.len() ==> (#[trigger] labels@[k])@ == self@.modes[k].mode_text(
                    long,
                ),
    {
        let mut labels: Vec<String> = Vec::new();
        let mut k: usize = 0;
        while k < self.modes.len()
            invariant
                k <= self.modes.len(),
                labels@.len() == k,
                forall|j: int|
                    0 <= j < k ==> (#[trigger] labels@[j])@ == self.modes@[j].mode_text(long),
            decreases self.modes.len() - k,
        {
            labels.push(self.modes[k].print_mode(long));
            k = k + 1;
        }
        labels
    }

    /// Decides what is to be done once the chooser has answered: nothing
    /// where the choice was given up, else what setting the chosen mode by
    /// its compact form asks for.
    pub fn set_from_list_modes(&self, choice: Option<usize>, display_index: DisplayIndex) -> (r:
        Result<Option<ModeChange>, ModeError>)
        requires
            choice matches Some(k) ==> k < self@.modes.len(),
        ensures
            match choice {
                None => r == Ok::<Option<ModeChange>, ModeError>(None),
                Some(k) => match r {
                    Ok(Some(change)) => set_outcome(
                        self@,
                        self@.modes[k as int].select_text(),
                        display_index,
                        Ok(change),
                    ) && change.mode.native_handle.is_some(),
                    Ok(None) => false,
                    Err(e) => set_outcome(
                        self@,
                        self@.modes[k as int].select_text(),
                        display_index,
                        Err(e),
                    ),
                },
            },
    {
        match choice {
            None => Ok(None),
            Some(k) => {
                let wanted = self.modes[k].for_select();
                match self.set_current_mode(wanted.as_str(), display_index) {
                    Ok(change) => Ok(Some(change)),
                    Err(e) => Err(e),
                }
            },
        }
    }
}

} // verus!
