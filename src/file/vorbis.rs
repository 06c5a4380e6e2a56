//! What the Ogg/Vorbis decoder's status codes mean to a stream.
use vstd::prelude::*;

verus! {

/// A status code of the Vorbis file library.
#[derive(Clone, Copy, Debug, PartialEq, Eq, Structural)]
pub struct LibVorbisError(pub i32);

/// Why a Vorbis source could not be opened.
#[derive(Clone, Copy, Debug, PartialEq, Eq, Structural)]
pub enum OpenError {
    /// The library reported this code.
    Vorbis(LibVorbisError),
    /// A later link of the stream has another sampling rate.
    ChangingRate,
    /// A later link of the stream has another number of channels.
    ChangingChannels,
}

/// A read from the media failed.
pub const OV_EREAD: i32 = -128;
/// Internal fault in the library.
pub const OV_EFAULT: i32 = -129;
/// An argument was not valid (also: the total length cannot be known).
pub const OV_EINVAL: i32 = -131;
/// The bitstream holds no Vorbis data.
pub const OV_ENOTVORBIS: i32 = -132;
/// A Vorbis header is not valid.
pub const OV_EBADHEADER: i32 = -133;
/// The Vorbis version does not match.
pub const OV_EVERSION: i32 = -134;
/// A link of the stream is corrupt.
pub const OV_EBADLINK: i32 = -137;
/// The bitstream cannot be sought.
pub const OV_ENOSEEK: i32 = -138;
/// Data was interrupted.
pub const OV_HOLE: i32 = -3;

/// The codes the library documents as errors.
pub open spec fn documented(code: i32) -> bool {
    code == OV_EREAD || code == OV_ENOTVORBIS || code == OV_EVERSION || code == OV_EBADHEADER
        || code == OV_EFAULT || code == OV_EINVAL || code == OV_HOLE || code == OV_EBADLINK
        || code == OV_ENOSEEK
}

impl LibVorbisError {
    /// What the code means, for the codes the library documents as errors.
    pub fn description(&self) -> (r: Option<&'static str>)
        ensures
            r is Some <==> documented(self.0),
    {
        match self.0 {
            OV_EREAD => Some("A read from media returned an error"),
            OV_ENOTVORBIS => Some("Bitstream does not contain any Vorbis data"),
            OV_EVERSION => Some("Vorbis version mismatch"),
            OV_EBADHEADER => Some("Invalid Vorbis bitstream header"),
            OV_EFAULT => Some("Internal logic fault; indicates a bug or heap/stack corruption"),
            OV_EINVAL => Some("Invalid argument value"),
            OV_HOLE => Some(
                "Interruption in the data (one of: garbage between pages, loss of sync followed by recapture, or a corrupt page)",
            ),
            OV_EBADLINK => Some("Invalid stream section, or the requested link is corrupt"),
            OV_ENOSEEK => Some("Bitstream is not seekable"),
            _ => None,
        }
    }
}

impl OpenError {
    /// What went wrong, where it can be said: an undeterminable total length
    /// is reported as such, other library codes by their meaning.
    pub fn reason(&self) -> (r: Option<&'static str>)
        ensures
            match self {
                OpenError::Vorbis(e) => r is Some <==> documented(e.0),
                _ => r is Some,
            },
    {
        match self {
            OpenError::Vorbis(e) => {
                if e.0 == OV_EINVAL {
                    Some("Unable to determine total duration (the bitstream is unseekable?)")
                } else {
                    e.description()
                }
            },
            OpenError::ChangingRate => Some("Changing sampling rate within a file is not supported"),
            OpenError::ChangingChannels => Some("Changing the number of channels within a file is not supported"),
        }
    }
}

/// A status of zero is success; any other is the library's error code.
pub fn check_status(status: i32) -> (r: Result<(), LibVorbisError>)
    ensures
        r == (if status == 0 { Ok(()) } else { Err(LibVorbisError(status)) }),
{
    if status == 0 {
        Ok(())
    } else {
        Err(LibVorbisError(status))
    }
}

/// A count returned by the library: negative values are error codes.
pub fn check_count(count: i64) -> (r: Result<usize, LibVorbisError>)
    requires
        count <= usize::MAX,
    ensures
        r == (if count < 0 { Err(LibVorbisError(count as i32)) } else { Ok(count as usize) }),
{
    if count < 0 {
        Err(LibVorbisError(count as i32))
    } else {
        Ok(count as usize)
    }
}

/// Link `k` has the first link's sampling rate and channel count.
pub open spec fn same_as_first(rates: Seq<i64>, channels: Seq<i32>, k: int) -> bool {
    rates[k] == rates[0] && channels[k] == channels[0]
}

/// The first link, past the first, whose sampling rate or channel count
/// differs from the first link's.
pub open spec fn first_change(rates: Seq<i64>, channels: Seq<i32>, i: int) -> bool {
    &&& 1 <= i < rates.len()
    &&& !same_as_first(rates, channels, i)
    &&& forall|k: int| 1 <= k < i ==> #[trigger] same_as_first(rates, channels, k)
}

/// Checks that every link of a chained stream has the first link's
/// sampling rate and channel count. At the first link that differs, a
/// changed rate is reported before a changed channel count.
pub fn check_links(rates: &Vec<i64>, channels: &Vec<i32>) -> (r: Result<(), OpenError>)
    requires
        0 < rates.len(),
        rates.len() == channels.len(),
    ensures
        r is Ok <==> forall|k: int| 1 <= k < rates.len() ==> #[trigger] same_as_first(rates@, channels@, k),
        r == Err::<(), OpenError>(OpenError::ChangingRate) <==> exists|i: int| first_change(rates@, channels@, i) && rates[i] != rates[0],
        r == Err::<(), OpenError>(OpenError::ChangingChannels) <==> exists|i: int| first_change(rates@, channels@, i) && rates[i] == rates[0],
        r is Err ==> r == Err::<(), OpenError>(OpenError::ChangingRate) || r == Err::<(), OpenError>(OpenError::ChangingChannels),
{
    let mut i: usize = 1;
    while i < rates.len()
        invariant
            1 <= i <= rates.len(),
            rates.len() == channels.len(),
            forall|k: int| 1 <= k < i ==> #[trigger] same_as_first(rates@, channels@, k),
        decreases rates.len() - i,
    {
        if rates[i] != rates[0] {
            assert(!same_as_first(rates@, channels@, i as int));
            assert(first_change(rates@, channels@, i as int));
            assert forall|j: int| first_change(rates@, channels@, j) implies j == i by {
                if j < i {
                } else if j > i {
                    assert(same_as_first(rates@, channels@, i as int));
                }
            }
            return Err(OpenError::ChangingRate);
        }
        if channels[i] != channels[0] {
            assert(!same_as_first(rates@, channels@, i as int));
            assert(first_change(rates@, channels@, i as int));
            assert forall|j: int| first_change(rates@, channels@, j) implies j == i by {
                if j > i {
                    assert(same_as_first(rates@, channels@, i as int));
                }
            }
            return Err(OpenError::ChangingChannels);
        }
        assert(same_as_first(rates@, channels@, i as int));
        i += 1;
    }
    Ok(())
}

/// The total length reported by the library: a negative value is its error code.
pub fn check_total(frames: i64) -> (r: Result<usize, OpenError>)
    requires
        frames <= usize::MAX,
    ensures
        r == (if frames < 0 { Err(OpenError::Vorbis(LibVorbisError(frames as i32))) } else { Ok(frames as usize) }),
{
    if frames < 0 {
        Err(OpenError::Vorbis(LibVorbisError(frames as i32)))
    } else {
        Ok(frames as usize)
    }
}

} // verus!
