//! The audit report: counters, running statistics and ordered findings,
//! filled by the handlers during one pass over an archive.

use vstd::prelude::*;

verus! {

/// Fixed-point unit of `ZipAuditReport::avg_ratio`: a ratio of 1 is stored as
/// one billion.
pub const RATIO_SCALE: u128 = 1_000_000_000;

/// Compression ratios above this are typical of zip bombs.
pub const MAX_SUSPICIOUS_RATIO: u64 = 1000;

/// An entry whose stored size is zero is flagged once it expands past this.
pub const ZERO_COMPRESSED_LIMIT: u64 = 1048576;

/// Directory depths above this earn a recommendation.
pub const DEPTH_RECOMMENDATION_LIMIT: usize = 25;

/// The exact compression ratio `uncompressed / compressed`. A zero
/// denominator stands for positive infinity, whatever the numerator.
#[derive(Clone, Copy, Debug, PartialEq, Eq, Structural)]
pub struct Ratio {
    pub uncompressed: u64,
    pub compressed: u64,
}

impl Ratio {
    pub open spec fn is_infinite(self) -> bool {
        self.compressed == 0
    }

    /// The ratio is strictly above the whole number `n`.
    pub open spec fn exceeds(self, n: int) -> bool {
        self.compressed == 0 || self.uncompressed > n * self.compressed
    }

    /// `self > other` as extended reals: infinity is above every finite ratio
    /// and not above itself.
    pub open spec fn greater_than(self, other: Ratio) -> bool {
        if self.compressed == 0 {
            other.compressed != 0
        } else if other.compressed == 0 {
            false
        } else {
            self.uncompressed * other.compressed > other.uncompressed * self.compressed
        }
    }

    /// A finite ratio in units of `1 / RATIO_SCALE`, rounded down.
    pub open spec fn scaled(self) -> int {
        (self.uncompressed * RATIO_SCALE) / (self.compressed as int)
    }

    /// The ratio 0.
    pub fn zero() -> (r: Ratio)
        ensures
            r.uncompressed == 0 && r.compressed == 1,
    {
        Ratio { uncompressed: 0, compressed: 1 }
    }

    pub fn is_finite(&self) -> (r: bool)
        ensures
            r == !self.is_infinite(),
    {
        self.compressed != 0
    }

    pub fn exceeds_whole(&self, n: u64) -> (r: bool)
        ensures
            r == self.exceeds(n as int),
    {
        proof {
            vstd::arithmetic::mul::lemma_mul_upper_bound(
                n as int,
                u64::MAX as int,
                self.compressed as int,
                u64::MAX as int,
            );
        }
        self.compressed == 0 || (self.uncompressed as u128) > (n as u128) * (
        self.compressed as u128)
    }

    pub fn is_greater_than(&self, other: &Ratio) -> (r: bool)
        ensures
            r == self.greater_than(*other),
    {
        if self.compressed == 0 {
            other.compressed != 0
        } else if other.compressed == 0 {
            false
        } else {
            proof {
                vstd::arithmetic::mul::lemma_mul_upper_bound(
                    self.uncompressed as int,
                    u64::MAX as int,
                    other.compressed as int,
                    u64::MAX as int,
                );
                vstd::arithmetic::mul::lemma_mul_upper_bound(
                    other.uncompressed as int,
                    u64::MAX as int,
                    self.compressed as int,
                    u64::MAX as int,
                );
            }
            (self.uncompressed as u128) * (other.compressed as u128) > (other.uncompressed as u128)
                * (self.compressed as u128)
        }
    }

    pub fn scaled_value(&self) -> (r: u128)
        requires
            !self.is_infinite(),
        ensures
            r == self.scaled(),
    {
        proof {
            vstd::arithmetic::mul::lemma_mul_upper_bound(
                self.uncompressed as int,
                u64::MAX as int,
                RATIO_SCALE as int,
                RATIO_SCALE as int,
            );
        }
        (self.uncompressed as u128) * RATIO_SCALE / (self.compressed as u128)
    }
}

/// Why an entry was flagged.
#[derive(Clone, Copy, Debug, PartialEq, Eq, Structural)]
pub enum SuspiciousReason {
    /// Uncompressed size far above the stored size, as in zip bombs.
    HugeRatio { compressed: u64, uncompressed: u64 },
    /// A name longer than 255 bytes or deeper than 40 segments.
    ExtremelyLongPath,
    /// A raw name that is not valid UTF-8.
    InvalidUtf8,
    /// A raw name holding ASCII control characters.
    ControlCharsInName,
    /// A Windows device name such as `CON` or `COM1`.
    WindowsReservedName,
    /// Nothing stored, yet a large expanded size.
    ZeroCompressedButLarge,
    /// Headers that disagree or are cut short.
    HeaderMismatch,
}

/// One finding: the entry's name and the reason.
#[derive(Clone, Debug)]
pub struct SuspiciousEntry {
    pub name: String,
    pub reason: SuspiciousReason,
}

impl View for SuspiciousEntry {
    type V = (Seq<char>, SuspiciousReason);

    open spec fn view(&self) -> (Seq<char>, SuspiciousReason) {
        (self.name@, self.reason)
    }
}

/// What a `ZipAuditReport` holds, with names as character sequences.
pub struct ReportModel {
    pub avg_ratio: u128,
    pub duplicate_names: Seq<Seq<char>>,
    pub encrypted_entries: Seq<Seq<char>>,
    pub entry_count: u64,
    pub has_absolute_paths: bool,
    pub has_encrypted_entries: bool,
    pub has_parent_components: bool,
    pub has_symlinks: bool,
    pub max_depth_hint: usize,
    pub max_ratio: Ratio,
    pub recommendations: Seq<Seq<char>>,
    pub suspicious_entries: Seq<(Seq<char>, SuspiciousReason)>,
    pub symlinks_point_outside_root: usize,
    pub total_compressed: u64,
    pub total_uncompressed: u64,
    pub truncated_or_mismatch: bool,
}

/// The report of a scan that has seen no entry yet.
pub open spec fn empty_report() -> ReportModel {
    ReportModel {
        avg_ratio: 0,
        duplicate_names: Seq::empty(),
        encrypted_entries: Seq::empty(),
        entry_count: 0,
        has_absolute_paths: false,
        has_encrypted_entries: false,
        has_parent_components: false,
        has_symlinks: false,
        max_depth_hint: 0,
        max_ratio: Ratio { uncompressed: 0, compressed: 1 },
        recommendations: Seq::empty(),
        suspicious_entries: Seq::empty(),
        symlinks_point_outside_root: 0,
        total_compressed: 0,
        total_uncompressed: 0,
        truncated_or_mismatch: false,
    }
}

/// The aggregate result of an audit.
///
/// `avg_ratio` is the running mean of the finite compression ratios in units
/// of `1 / RATIO_SCALE`; `max_ratio` is exact.
#[derive(Clone, Debug)]
pub struct ZipAuditReport {
    pub avg_ratio: u128,
    pub duplicate_names: Vec<String>,
    pub encrypted_entries: Vec<String>,
    pub entry_count: u64,
    pub has_absolute_paths: bool,
    pub has_encrypted_entries: bool,
    pub has_parent_components: bool,
    pub has_symlinks: bool,
    pub max_depth_hint: usize,
    pub max_ratio: Ratio,
    pub recommendations: Vec<String>,
    pub suspicious_entries: Vec<SuspiciousEntry>,
    pub symlinks_point_outside_root: usize,
    pub total_compressed: u64,
    pub total_uncompressed: u64,
    pub truncated_or_mismatch: bool,
}

impl View for ZipAuditReport {
    type V = ReportModel;

    open spec fn view(&self) -> ReportModel {
        ReportModel {
            avg_ratio: self.avg_ratio,
            duplicate_names: self.duplicate_names@.map_values(|s: String| s@),
            encrypted_entries: self.encrypted_entries@.map_values(|s: String| s@),
            entry_count: self.entry_count,
            has_absolute_paths: self.has_absolute_paths,
            has_encrypted_entries: self.has_encrypted_entries,
            has_parent_components: self.has_parent_components,
            has_symlinks: self.has_symlinks,
            max_depth_hint: self.max_depth_hint,
            max_ratio: self.max_ratio,
            recommendations: self.recommendations@.map_values(|s: String| s@),
            suspicious_entries: self.suspicious_entries@.map_values(|e: SuspiciousEntry| e@),
            symlinks_point_outside_root: self.symlinks_point_outside_root,
            total_compressed: self.total_compressed,
            total_uncompressed: self.total_uncompressed,
            truncated_or_mismatch: self.truncated_or_mismatch,
        }
    }
}

/// Pushing onto a vector pushes the viewed item onto its mapped view.
pub proof fn lemma_map_push<T, U>(s: Seq<T>, x: T, f: spec_fn(T) -> U)
    ensures
        s.push(x).map_values(f) == s.map_values(f).push(f(x)),
{
    assert(s.push(x).map_values(f) =~= s.map_values(f).push(f(x)));
}

impl ZipAuditReport {
    /// An empty report: no entries, every flag off, every list empty.
    pub fn new() -> (r: ZipAuditReport)
        ensures
            r@ == empty_report(),
    {
        let r = ZipAuditReport {
            avg_ratio: 0,
            duplicate_names: Vec::new(),
            encrypted_entries: Vec::new(),
            entry_count: 0,
            has_absolute_paths: false,
            has_encrypted_entries: false,
            has_parent_components: false,
            has_symlinks: false,
            max_depth_hint: 0,
            max_ratio: Ratio::zero(),
            recommendations: Vec::new(),
            suspicious_entries: Vec::new(),
            symlinks_point_outside_root: 0,
            total_compressed: 0,
            total_uncompressed: 0,
            truncated_or_mismatch: false,
        };
        assert(r@.duplicate_names =~= Seq::<Seq<char>>::empty());
        assert(r@.encrypted_entries =~= Seq::<Seq<char>>::empty());
        assert(r@.recommendations =~= Seq::<Seq<char>>::empty());
        assert(r@.suspicious_entries =~= Seq::<(Seq<char>, SuspiciousReason)>::empty());
        r
    }

    /// Records a name met a second time.
    pub fn trace_duplicate(&mut self, name: String)
        ensures
            final(self)@ == (ReportModel {
                duplicate_names: old(self)@.duplicate_names.push(name@),
                ..old(self)@
            }),
    {
        proof {
            lemma_map_push(self.duplicate_names@, name, |s: String| s@);
        }
        self.duplicate_names.push(name);
    }

    /// Records an encrypted entry and raises the encryption flag.
    pub fn trace_encrypted(&mut self, name: String)
        ensures
            final(self)@ == (ReportModel {
                encrypted_entries: old(self)@.encrypted_entries.push(name@),
                has_encrypted_entries: true,
                ..old(self)@
            }),
    {
        proof {
            lemma_map_push(self.encrypted_entries@, name, |s: String| s@);
        }
        self.encrypted_entries.push(name);
        self.has_encrypted_entries = true;
    }

    /// Appends a finding.
    pub fn trace_suspicious(&mut self, name: String, reason: SuspiciousReason)
        ensures
            final(self)@ == (ReportModel {
                suspicious_entries: old(self)@.suspicious_entries.push((name@, reason)),
                ..old(self)@
            }),
    {
        let e = SuspiciousEntry { name, reason };
        proof {
            lemma_map_push(self.suspicious_entries@, e, |e: SuspiciousEntry| e@);
        }
        self.suspicious_entries.push(e);
    }

    /// Appends a recommendation.
    pub fn recommend(&mut self, text: String)
        ensures
            final(self)@ == (ReportModel {
                recommendations: old(self)@.recommendations.push(text@),
                ..old(self)@
            }),
    {
        proof {
            lemma_map_push(self.recommendations@, text, |s: String| s@);
        }
        self.recommendations.push(text);
    }
}

} // verus!
