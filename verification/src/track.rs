//! A reconstructed track and the decoders of its stored parts.

use vstd::prelude::*;
use crate::codec::{be_f32_at, Decoder, FloatBits};
use crate::error::Error;
use crate::number::{be_u32, be_u64, be_u64_at, be_u8, be_u8_at};

verus! {

/// The five parameters that describe the helix of a track.
#[derive(Debug, Clone, Copy, PartialEq, Eq, Structural)]
pub struct TrackParameters {
    /// Local y coordinate.
    pub loc_y: FloatBits,
    /// Local z coordinate.
    pub loc_z: FloatBits,
    /// Sine of the azimuthal angle in the local frame.
    pub loc_sin: FloatBits,
    /// Tangent of the dip angle.
    pub tang: FloatBits,
    /// Signed inverse of the transverse momentum.
    pub one_over_pt: FloatBits,
}

impl TrackParameters {
    /// The parameters in the order in which they are stored.
    pub fn new(p: &(FloatBits, FloatBits, FloatBits, FloatBits, FloatBits)) -> (r: TrackParameters)
        ensures
            r == (TrackParameters {
                loc_y: p.0,
                loc_z: p.1,
                loc_sin: p.2,
                tang: p.3,
                one_over_pt: p.4,
            }),
    {
        TrackParameters { loc_y: p.0, loc_z: p.1, loc_sin: p.2, tang: p.3, one_over_pt: p.4 }
    }
}

/// The status bits of a track.
#[derive(Debug, Clone, Copy, PartialEq, Eq, Structural)]
pub struct Flags {
    /// The bits as they are stored.
    pub bits: u64,
}

impl Flags {
    /// The flags that the bits of `bits` stand for.
    pub fn from_bits(bits: u64) -> (r: Flags)
        ensures
            r.bits == bits,
    {
        Flags { bits }
    }

    /// Whether every flag of `other` is set.
    pub fn contains(&self, other: Flags) -> (r: bool)
        ensures
            r == (self.bits & other.bits == other.bits),
    {
        self.bits & other.bits == other.bits
    }
}

/// The layers of the inner tracker in which a track has a cluster.
#[derive(Debug, Clone, Copy, PartialEq, Eq, Structural)]
pub struct ItsClusters {
    /// One bit for each layer, as stored.
    pub bits: u8,
}

impl ItsClusters {
    /// The layers that the bits of `bits` stand for.
    pub fn from_bits(bits: u8) -> (r: ItsClusters)
        ensures
            r.bits == bits,
    {
        ItsClusters { bits }
    }

    /// Whether every layer of `other` is set.
    pub fn contains(&self, other: ItsClusters) -> (r: bool)
        ensures
            r == (self.bits & other.bits == other.bits),
    {
        self.bits & other.bits == other.bits
    }
}

/// One reconstructed track of an event.
#[derive(Debug, Clone, Copy, PartialEq, Eq, Structural)]
pub struct Track {
    /// Position along the local x axis.
    pub x: FloatBits,
    /// The helix of the track.
    pub parameters: TrackParameters,
    /// Rotation of the local frame.
    pub alpha: FloatBits,
    /// Status bits.
    pub flags: Flags,
    /// Fit quality in the inner tracker.
    pub its_chi2: FloatBits,
    /// Number of clusters in the inner tracker.
    pub its_ncls: i8,
    /// Layers of the inner tracker with a cluster.
    pub its_clustermap: ItsClusters,
    /// Fit quality in the time projection chamber.
    pub tpc_chi2: FloatBits,
    /// Number of clusters in the time projection chamber.
    pub tpc_ncls: u16,
}

impl DeepView for TrackParameters {
    type V = TrackParameters;

    open spec fn deep_view(&self) -> TrackParameters {
        *self
    }
}

impl DeepView for Flags {
    type V = Flags;

    open spec fn deep_view(&self) -> Flags {
        *self
    }
}

impl DeepView for ItsClusters {
    type V = ItsClusters;

    open spec fn deep_view(&self) -> ItsClusters {
        *self
    }
}

impl DeepView for Track {
    type V = Track;

    open spec fn deep_view(&self) -> Track {
        *self
    }
}

/// Three numbers one behind the other.
pub open spec fn position_at(b: Seq<u8>, at: int) -> Option<((FloatBits, FloatBits, FloatBits), int)> {
    match be_f32_at(b, at) {
        Some((x, p1)) => match be_f32_at(b, p1) {
            Some((y, p2)) => match be_f32_at(b, p2) {
                Some((z, next)) => Some(((x, y, z), next)),
                None => None,
            },
            None => None,
        },
        None => None,
    }
}

/// Five numbers one behind the other, read as the parameters of a track.
pub open spec fn track_parameters_at(b: Seq<u8>, at: int) -> Option<(TrackParameters, int)> {
    match position_at(b, at) {
        Some(((loc_y, loc_z, loc_sin), p3)) => match be_f32_at(b, p3) {
            Some((tang, p4)) => match be_f32_at(b, p4) {
                Some((one_over_pt, next)) => Some(
                    (TrackParameters { loc_y, loc_z, loc_sin, tang, one_over_pt }, next),
                ),
                None => None,
            },
            None => None,
        },
        None => None,
    }
}

/// Eight bytes read as status bits.
pub open spec fn flags_at(b: Seq<u8>, at: int) -> Option<(Flags, int)> {
    match be_u64_at(b, at) {
        Some((bits, next)) => Some((Flags { bits }, next)),
        None => None,
    }
}

/// One byte read as a cluster map.
pub open spec fn its_clusters_at(b: Seq<u8>, at: int) -> Option<(ItsClusters, int)> {
    match be_u8_at(b, at) {
        Some((bits, next)) => Some((ItsClusters { bits }, next)),
        None => None,
    }
}

/// Reads one number at `at`.
pub fn be_f32(input: &[u8], at: usize) -> (r: Result<(FloatBits, usize), Error>)
    ensures
        match r {
            Ok((v, next)) => be_f32_at(input@, at as int) == Some((v, next as int)),
            Err(e) => e == Error::Format && be_f32_at(input@, at as int) is None,
        },
{
    let (bits, next) = be_u32(input, at)?;
    Ok((FloatBits { bits }, next))
}

/// Decoder of a position: three numbers.
pub struct Position;

/// Decoder of the parameters of a track: five numbers.
pub struct Parameters;

/// Decoder of the status bits of a track.
pub struct StatusFlags;

/// Decoder of the cluster map of a track.
pub struct ClusterMap;

impl Decoder for Position {
    type Item = (FloatBits, FloatBits, FloatBits);

    open spec fn parsed(&self, bytes: Seq<u8>, at: int) -> Option<
        ((FloatBits, FloatBits, FloatBits), int),
    > {
        position_at(bytes, at)
    }

    proof fn parsed_advances(&self, bytes: Seq<u8>, at: int) {
    }

    fn parse(&self, input: &[u8], at: usize) -> (r: Result<
        ((FloatBits, FloatBits, FloatBits), usize),
        Error,
    >) {
        let (x, p) = be_f32(input, at)?;
        let (y, p) = be_f32(input, p)?;
        let (z, p) = be_f32(input, p)?;
        let v = (x, y, z);
        assert(v.deep_view() == v);
        Ok((v, p))
    }
}

impl Decoder for Parameters {
    type Item = TrackParameters;

    open spec fn parsed(&self, bytes: Seq<u8>, at: int) -> Option<(TrackParameters, int)> {
        track_parameters_at(bytes, at)
    }

    proof fn parsed_advances(&self, bytes: Seq<u8>, at: int) {
    }

    fn parse(&self, input: &[u8], at: usize) -> (r: Result<(TrackParameters, usize), Error>) {
        let (a, p) = be_f32(input, at)?;
        let (b, p) = be_f32(input, p)?;
        let (c, p) = be_f32(input, p)?;
        let (d, p) = be_f32(input, p)?;
        let (e, p) = be_f32(input, p)?;
        let v = TrackParameters::new(&(a, b, c, d, e));
        assert(v.deep_view() == v);
        Ok((v, p))
    }
}

impl Decoder for StatusFlags {
    type Item = Flags;

    open spec fn parsed(&self, bytes: Seq<u8>, at: int) -> Option<(Flags, int)> {
        flags_at(bytes, at)
    }

    proof fn parsed_advances(&self, bytes: Seq<u8>, at: int) {
    }

    fn parse(&self, input: &[u8], at: usize) -> (r: Result<(Flags, usize), Error>) {
        let (bits, p) = be_u64(input, at)?;
        let v = Flags::from_bits(bits);
        assert(v.deep_view() == v);
        Ok((v, p))
    }
}

impl Decoder for ClusterMap {
    type Item = ItsClusters;

    open spec fn parsed(&self, bytes: Seq<u8>, at: int) -> Option<(ItsClusters, int)> {
        its_clusters_at(bytes, at)
    }

    proof fn parsed_advances(&self, bytes: Seq<u8>, at: int) {
    }

    fn parse(&self, input: &[u8], at: usize) -> (r: Result<(ItsClusters, usize), Error>) {
        let (bits, p) = be_u8(input, at)?;
        let v = ItsClusters::from_bits(bits);
        assert(v.deep_view() == v);
        Ok((v, p))
    }
}

} // verus!
