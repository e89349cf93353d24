//! A set of detectors run together, with smell kinds switched on or off.
use vstd::prelude::*;
use crate::detectors::Detector;
use crate::model::detector::SmellDetector;
use crate::model::smell::{SmellType, SmellView, TestFile, TestSmell};

verus! {

/// Whether a smell of kind `t` passes the filters: not disabled, and among
/// the enabled kinds when only some are enabled.
pub open spec fn kind_allowed(
    t: SmellType,
    enabled: Option<Seq<SmellType>>,
    disabled: Seq<SmellType>,
) -> bool {
    !disabled.contains(t) && match enabled {
        Some(e) => e.contains(t),
        None => true,
    }
}

/// The smells of `ss` that pass the filters, in order.
pub open spec fn keep_allowed(
    ss: Seq<SmellView>,
    enabled: Option<Seq<SmellType>>,
    disabled: Seq<SmellType>,
) -> Seq<SmellView>
    decreases ss.len(),
{
    if ss.len() == 0 {
        Seq::empty()
    } else {
        keep_allowed(ss.drop_last(), enabled, disabled) + if kind_allowed(
            ss.last().smell_type,
            enabled,
            disabled,
        ) {
            seq![ss.last()]
        } else {
            Seq::empty()
        }
    }
}

/// What the detectors `ds` report for one file, detector by detector, filtered.
pub open spec fn file_smells<D: SmellDetector>(
    ds: Seq<D>,
    file: TestFile,
    enabled: Option<Seq<SmellType>>,
    disabled: Seq<SmellType>,
) -> Seq<SmellView>
    decreases ds.len(),
{
    if ds.len() == 0 {
        Seq::empty()
    } else {
        file_smells(ds.drop_last(), file, enabled, disabled) + keep_allowed(
            ds.last().smells_in(file),
            enabled,
            disabled,
        )
    }
}

/// What the detectors `ds` report for the files `fs`, file by file, filtered.
pub open spec fn all_smells<D: SmellDetector>(
    ds: Seq<D>,
    fs: Seq<TestFile>,
    enabled: Option<Seq<SmellType>>,
    disabled: Seq<SmellType>,
) -> Seq<SmellView>
    decreases fs.len(),
{
    if fs.len() == 0 {
        Seq::empty()
    } else {
        all_smells(ds, fs.drop_last(), enabled, disabled) + file_smells(
            ds,
            fs.last(),
            enabled,
            disabled,
        )
    }
}

/// Registers detectors and runs them over parsed files. The detectors are of
/// one type: the built-in `Detector` unless another is named, such as a
/// type of the user's own that implements `SmellDetector`.
pub struct SmellDetectorRegistry<D = Detector> {
    detectors: Vec<D>,
    enabled: Option<Vec<SmellType>>,
    disabled: Vec<SmellType>,
}

impl<D: SmellDetector> SmellDetectorRegistry<D> {
    /// The registered detectors, in registration order.
    pub closed spec fn detector_list(&self) -> Seq<D> {
        self.detectors@
    }

    /// The only kinds reported, when a restriction was set.
    pub closed spec fn enabled_kinds(&self) -> Option<Seq<SmellType>> {
        match self.enabled {
            Some(e) => Some(e@),
            None => None,
        }
    }

    /// The kinds never reported.
    pub closed spec fn disabled_kinds(&self) -> Seq<SmellType> {
        self.disabled@
    }

    /// What `detect_all` reports for `files`.
    pub open spec fn report(&self, files: Seq<TestFile>) -> Seq<SmellView> {
        all_smells(self.detector_list(), files, self.enabled_kinds(), self.disabled_kinds())
    }

    /// An empty registry: no detector, every kind allowed.
    pub fn new() -> (r: Self)
        ensures
            r.detector_list() == Seq::<D>::empty(),
            r.enabled_kinds() is None,
            r.disabled_kinds() == Seq::<SmellType>::empty(),
    {
        SmellDetectorRegistry { detectors: Vec::new(), enabled: None, disabled: Vec::new() }
    }

    /// The registry with `detector` added after the others.
    pub fn register(self, detector: D) -> (r: Self)
        ensures
            r.detector_list() == self.detector_list().push(detector),
            r.enabled_kinds() == self.enabled_kinds(),
            r.disabled_kinds() == self.disabled_kinds(),
    {
        let mut s = self;
        s.detectors.push(detector);
        s
    }

    /// The registry with kind `smell` switched off.
    pub fn disable(self, smell: SmellType) -> (r: Self)
        ensures
            r.detector_list() == self.detector_list(),
            r.enabled_kinds() == self.enabled_kinds(),
            r.disabled_kinds() == self.disabled_kinds().push(smell),
    {
        let mut s = self;
        s.disabled.push(smell);
        s
    }

    /// The registry reporting only the kinds in `smells`.
    pub fn enable_only(self, smells: Vec<SmellType>) -> (r: Self)
        ensures
            r.detector_list() == self.detector_list(),
            r.enabled_kinds() == Some(smells@),
            r.disabled_kinds() == self.disabled_kinds(),
    {
        let mut s = self;
        s.enabled = Some(smells);
        s
    }

    /// Whether kind `t` passes this registry's filters.
    pub fn allows(&self, t: SmellType) -> (r: bool)
        ensures
            r == kind_allowed(t, self.enabled_kinds(), self.disabled_kinds()),
    {
        if kind_in(&self.disabled, t) {
            return false;
        }
        match &self.enabled {
            Some(e) => kind_in(e, t),
            None => true,
        }
    }

    /// Runs every detector over every file: for each file in order, each
    /// detector in registration order, the smells that pass the filters.
    pub fn detect_all(&self, files: &[TestFile]) -> (r: Vec<TestSmell>)
        ensures
            r@.map_values(|s: TestSmell| s@) == self.report(files@),
    {
        let mut results: Vec<TestSmell> = Vec::new();
        let mut fi: usize = 0;
        while fi < files.len()
            invariant
                fi <= files@.len(),
                results@.map_values(|s: TestSmell| s@) == all_smells(
                    self.detector_list(),
                    files@.take(fi as int),
                    self.enabled_kinds(),
                    self.disabled_kinds(),
                ),
            decreases files.len() - fi,
        {
            let file = &files[fi];
            proof {
                assert(files@.take(fi as int + 1).drop_last() =~= files@.take(fi as int));
                assert(files@.take(fi as int + 1).last() == files@[fi as int]);
            }
            let ghost start = results@.map_values(|s: TestSmell| s@);
            let mut di: usize = 0;
            while di < self.detectors.len()
                invariant
                    di <= self.detectors@.len(),
                    file == files@[fi as int],
                    results@.map_values(|s: TestSmell| s@) == start + file_smells(
                        self.detector_list().take(di as int),
                        *file,
                        self.enabled_kinds(),
                        self.disabled_kinds(),
                    ),
                decreases self.detectors.len() - di,
            {
                let det = &self.detectors[di];
                proof {
                    let ds = self.detector_list();
                    assert(ds.take(di as int + 1).drop_last() =~= ds.take(di as int));
                    assert(ds.take(di as int + 1).last() == ds[di as int]);
                }
                let found = det.detect(file);
                let ghost fv = found@.map_values(|s: TestSmell| s@);
                let ghost mid = results@.map_values(|s: TestSmell| s@);
                let mut k: usize = 0;
                while k < found.len()
                    invariant
                        k <= found@.len(),
                        fv == found@.map_values(|s: TestSmell| s@),
                        results@.map_values(|s: TestSmell| s@) == mid + keep_allowed(
                            fv.take(k as int),
                            self.enabled_kinds(),
                            self.disabled_kinds(),
                        ),
                    decreases found.len() - k,
                {
                    let ghost before = results@.map_values(|s: TestSmell| s@);
                    proof {
                        assert(fv.take(k as int + 1).drop_last() =~= fv.take(k as int));
                        assert(fv.take(k as int + 1).last() == found@[k as int]@);
                    }
                    let smell = &found[k];
                    if self.allows(smell.smell_type) {
                        let copy = smell.duplicate();
                        results.push(copy);
                        proof {
                            assert(results@.map_values(|s: TestSmell| s@) =~= before.push(
                                copy@,
                            ));
                            assert(before.push(copy@) =~= mid + (keep_allowed(
                                fv.take(k as int),
                                self.enabled_kinds(),
                                self.disabled_kinds(),
                            ) + seq![found@[k as int]@]));
                        }
                    } else {
                        proof {
                            assert(keep_allowed(
                                fv.take(k as int),
                                self.enabled_kinds(),
                                self.disabled_kinds(),
                            ) + Seq::<SmellView>::empty() =~= keep_allowed(
                                fv.take(k as int),
                                self.enabled_kinds(),
                                self.disabled_kinds(),
                            ));
                        }
                    }
                    k += 1;
                }
                proof {
                    assert(fv.take(fv.len() as int) =~= fv);
                    assert(mid + keep_allowed(fv, self.enabled_kinds(), self.disabled_kinds())
                        =~= start + (file_smells(
                        self.detector_list().take(di as int),
                        *file,
                        self.enabled_kinds(),
                        self.disabled_kinds(),
                    ) + keep_allowed(fv, self.enabled_kinds(), self.disabled_kinds())));
                }
                di += 1;
            }
            proof {
                assert(self.detector_list().take(self.detectors@.len() as int)
                    =~= self.detector_list());
            }
            fi += 1;
        }
        proof {
            assert(files@.take(files@.len() as int) =~= files@);
        }
        results
    }
}

/// Whether `t` is in `list`.
fn kind_in(list: &Vec<SmellType>, t: SmellType) -> (r: bool)
    ensures
        r == list@.contains(t),
{
    let mut i: usize = 0;
    while i < list.len()
        invariant
            i <= list@.len(),
            forall|j: int| 0 <= j < i ==> list@[j] != t,
        decreases list.len() - i,
    {
        if list[i] == t {
            assert(list@[i as int] == t);
            return true;
        }
        i += 1;
    }
    false
}

/// Every smell that passes the filters has a kind the filters allow.
pub proof fn lemma_keep_allowed_sound(
    ss: Seq<SmellView>,
    enabled: Option<Seq<SmellType>>,
    disabled: Seq<SmellType>,
)
    ensures
        forall|i: int|
            0 <= i < keep_allowed(ss, enabled, disabled).len() ==> kind_allowed(
                #[trigger] keep_allowed(ss, enabled, disabled)[i].smell_type,
                enabled,
                disabled,
            ),
    decreases ss.len(),
{
    if ss.len() > 0 {
        lemma_keep_allowed_sound(ss.drop_last(), enabled, disabled);
    }
}

/// Every smell reported for one file has a kind the filters allow.
pub proof fn lemma_file_smells_allowed<D: SmellDetector>(
    ds: Seq<D>,
    file: TestFile,
    enabled: Option<Seq<SmellType>>,
    disabled: Seq<SmellType>,
)
    ensures
        forall|i: int|
            0 <= i < file_smells(ds, file, enabled, disabled).len() ==> kind_allowed(
                #[trigger] file_smells(ds, file, enabled, disabled)[i].smell_type,
                enabled,
                disabled,
            ),
    decreases ds.len(),
{
    if ds.len() > 0 {
        lemma_file_smells_allowed(ds.drop_last(), file, enabled, disabled);
        lemma_keep_allowed_sound(ds.last().smells_in(file), enabled, disabled);
        let a = file_smells(ds.drop_last(), file, enabled, disabled);
        let b = keep_allowed(ds.last().smells_in(file), enabled, disabled);
        assert forall|i: int| 0 <= i < (a + b).len() implies kind_allowed(
            #[trigger] (a + b)[i].smell_type,
            enabled,
            disabled,
        ) by {
            if i < a.len() {
                assert((a + b)[i] == a[i]);
            } else {
                assert((a + b)[i] == b[i - a.len()]);
            }
        }
    }
}

/// Filtering law: every smell `detect_all` reports is of a kind the registry
/// allows; no disabled kind is ever reported, and when only some kinds are
/// enabled, nothing else is.
pub proof fn lemma_report_respects_filters<D: SmellDetector>(reg: SmellDetectorRegistry<D>, files: Seq<TestFile>)
    ensures
        forall|i: int|
            0 <= i < reg.report(files).len() ==> {
                &&& !reg.disabled_kinds().contains(#[trigger] reg.report(files)[i].smell_type)
                &&& (reg.enabled_kinds() matches Some(e) ==> e.contains(
                    reg.report(files)[i].smell_type,
                ))
            },
    decreases files.len(),
{
    let ds = reg.detector_list();
    let en = reg.enabled_kinds();
    let dis = reg.disabled_kinds();
    if files.len() > 0 {
        lemma_report_respects_filters(reg, files.drop_last());
        lemma_file_smells_allowed(ds, files.last(), en, dis);
        let a = all_smells(ds, files.drop_last(), en, dis);
        let b = file_smells(ds, files.last(), en, dis);
        assert(reg.report(files) == a + b);
        assert(reg.report(files.drop_last()) == a);
        assert forall|i: int| 0 <= i < (a + b).len() implies kind_allowed(
            #[trigger] (a + b)[i].smell_type,
            en,
            dis,
        ) by {
            if i < a.len() {
                assert((a + b)[i] == a[i]);
                assert(kind_allowed(a[i].smell_type, en, dis));
            } else {
                assert((a + b)[i] == b[i - a.len()]);
            }
        }
    }
}

/// Without filters, `detect_all` reports for a file exactly what each
/// registered detector reports, concatenated in registration order.
pub proof fn lemma_unfiltered_file_report<D: SmellDetector>(ds: Seq<D>, file: TestFile)
    ensures
        file_smells(ds, file, None, Seq::empty()) == unfiltered(ds, file),
    decreases ds.len(),
{
    if ds.len() > 0 {
        lemma_unfiltered_file_report(ds.drop_last(), file);
        lemma_keep_all(ds.last().smells_in(file));
    }
}

/// What the detectors `ds` report for `file`, concatenated in order.
pub open spec fn unfiltered<D: SmellDetector>(ds: Seq<D>, file: TestFile) -> Seq<SmellView>
    decreases ds.len(),
{
    if ds.len() == 0 {
        Seq::empty()
    } else {
        unfiltered(ds.drop_last(), file) + ds.last().smells_in(file)
    }
}

/// With no kind disabled and no restriction, filtering keeps every smell.
pub proof fn lemma_keep_all(ss: Seq<SmellView>)
    ensures
        keep_allowed(ss, None, Seq::empty()) == ss,
    decreases ss.len(),
{
    if ss.len() > 0 {
        lemma_keep_all(ss.drop_last());
        assert(ss.drop_last() + seq![ss.last()] =~= ss);
    }
}

/// The filter test on single smells: whether a smell's kind passes the filters.
pub open spec fn allowed_by(
    enabled: Option<Seq<SmellType>>,
    disabled: Seq<SmellType>,
) -> spec_fn(SmellView) -> bool {
    |s: SmellView| kind_allowed(s.smell_type, enabled, disabled)
}

/// What the detectors `ds` report for the files `fs`, file by file and
/// detector by detector, before any filter.
pub open spec fn unfiltered_all<D: SmellDetector>(ds: Seq<D>, fs: Seq<TestFile>) -> Seq<SmellView>
    decreases fs.len(),
{
    if fs.len() == 0 {
        Seq::empty()
    } else {
        unfiltered_all(ds, fs.drop_last()) + unfiltered(ds, fs.last())
    }
}

proof fn lemma_keep_is_filter(ss: Seq<SmellView>, enabled: Option<Seq<SmellType>>, disabled: Seq<SmellType>)
    ensures
        keep_allowed(ss, enabled, disabled) == ss.filter(allowed_by(enabled, disabled)),
    decreases ss.len(),
{
    reveal(Seq::filter);
    if ss.len() > 0 {
        lemma_keep_is_filter(ss.drop_last(), enabled, disabled);
        let sub = ss.drop_last().filter(allowed_by(enabled, disabled));
        assert(sub.push(ss.last()) =~= sub + seq![ss.last()]);
        assert(sub =~= sub + Seq::<SmellView>::empty());
    }
}

proof fn lemma_file_is_filter<D: SmellDetector>(ds: Seq<D>, file: TestFile, enabled: Option<Seq<SmellType>>, disabled: Seq<SmellType>)
    ensures
        file_smells(ds, file, enabled, disabled) == unfiltered(ds, file).filter(allowed_by(enabled, disabled)),
    decreases ds.len(),
{
    reveal(Seq::filter);
    if ds.len() > 0 {
        lemma_file_is_filter(ds.drop_last(), file, enabled, disabled);
        lemma_keep_is_filter(ds.last().smells_in(file), enabled, disabled);
        Seq::filter_distributes_over_add(
            unfiltered(ds.drop_last(), file),
            ds.last().smells_in(file),
            allowed_by(enabled, disabled),
        );
    }
}

/// Filtering law: `detect_all` reports exactly what the registered detectors
/// report over the files, file by file and detector by detector, with the
/// smells of disabled kinds (and, under a restriction, of kinds not enabled)
/// removed and every other smell kept, in order.
pub proof fn lemma_report_is_filtered<D: SmellDetector>(reg: SmellDetectorRegistry<D>, files: Seq<TestFile>)
    ensures
        reg.report(files) == unfiltered_all(reg.detector_list(), files).filter(
            allowed_by(reg.enabled_kinds(), reg.disabled_kinds()),
        ),
    decreases files.len(),
{
    reveal(Seq::filter);
    let ds = reg.detector_list();
    let en = reg.enabled_kinds();
    let dis = reg.disabled_kinds();
    if files.len() > 0 {
        lemma_report_is_filtered(reg, files.drop_last());
        lemma_file_is_filter(ds, files.last(), en, dis);
        Seq::filter_distributes_over_add(
            unfiltered_all(ds, files.drop_last()),
            unfiltered(ds, files.last()),
            allowed_by(en, dis),
        );
    }
}

} // verus!
