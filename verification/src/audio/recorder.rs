//! The decisions around microphone capture: which device, how much audio
//! to keep, and what a failure is called. Opening the device is done
//! around the library.
use vstd::prelude::*;
use vstd::string::StringExecFns;

verus! {

/// Why the microphone could not be used.
#[derive(Debug, PartialEq, Eq)]
pub enum AudioError {
    NoInputDevice,
    Device(String),
    UnsupportedFormat(String),
    CaptureThreadDied,
}

impl AudioError {
    /// The text shown for this error.
    pub open spec fn message_view(&self) -> Seq<char> {
        match self {
            AudioError::NoInputDevice => "aucun micro disponible"@,
            AudioError::Device(m) => "micro inaccessible : "@ + m@,
            AudioError::UnsupportedFormat(m) => "format audio non pris en charge : "@ + m@,
            AudioError::CaptureThreadDied => "le thread de capture s'est arrêté de façon inattendue"@,
        }
    }

    /// The text shown for this error.
    pub fn message(&self) -> (r: String)
        ensures
            r@ == self.message_view(),
    {
        match self {
            AudioError::NoInputDevice => "aucun micro disponible".to_string(),
            AudioError::Device(m) => {
                let mut r = "micro inaccessible : ".to_string();
                r.append(m.as_str());
                r
            },
            AudioError::UnsupportedFormat(m) => {
                let mut r = "format audio non pris en charge : ".to_string();
                r.append(m.as_str());
                r
            },
            AudioError::CaptureThreadDied => "le thread de capture s'est arrêté de façon inattendue".to_string(),
        }
    }
}

/// Which input device to open.
#[derive(Debug, Clone, Copy, PartialEq, Eq, Structural)]
pub enum DeviceChoice {
    /// The device at this index of the listed names.
    Listed(usize),
    /// The system's default input (none was asked for, or the one asked
    /// for is not there).
    Default,
}

/// Chooses the device to open, given the names of the input devices.
pub fn pick_device(names: &Vec<String>, wanted: Option<&str>) -> (c: DeviceChoice)
    ensures
        wanted is None ==> c == DeviceChoice::Default,
        c matches DeviceChoice::Listed(i) ==> {
            &&& wanted is Some
            &&& i < names.len()
            &&& names@[i as int]@ == wanted->0@
            &&& forall|j: int| 0 <= j < i ==> (#[trigger] names@[j])@ != wanted->0@
        },
        (wanted is Some && c == DeviceChoice::Default) ==> forall|j: int|
            0 <= j < names.len() ==> (#[trigger] names@[j])@ != wanted->0@,
{
    match wanted {
        None => DeviceChoice::Default,
        Some(w) => {
            let wanted_name = w.to_string();
            let mut i: usize = 0;
            while i < names.len()
                invariant
                    i <= names.len(),
                    wanted_name@ == w@,
                    wanted == Some(w),
                    forall|j: int| 0 <= j < i ==> (#[trigger] names@[j])@ != w@,
                decreases names.len() - i,
            {
                if names[i].eq(&wanted_name) {
                    return DeviceChoice::Listed(i);
                }
                i = i + 1;
            }
            DeviceChoice::Default
        },
    }
}

/// Seconds of audio that the capture buffer is sized for up front.
pub const PREALLOCATED_SECS: u32 = 30;

/// The most samples a recording keeps (`max_secs` of audio), and the
/// buffer's first capacity: thirty seconds, or less when that is the most.
pub fn capture_sizes(sample_rate: u32, max_secs: u32) -> (r: (usize, usize))
    requires
        sample_rate as int * max_secs as int <= usize::MAX,
        sample_rate as int * PREALLOCATED_SECS as int <= usize::MAX,
    ensures
        r.0 == sample_rate as int * max_secs as int,
        r.1 == if sample_rate as int * PREALLOCATED_SECS as int <= r.0 {
            sample_rate as int * PREALLOCATED_SECS as int
        } else {
            r.0 as int
        },
{
    let max_samples = sample_rate as usize * max_secs as usize;
    let preallocated = sample_rate as usize * PREALLOCATED_SECS as usize;
    let capacity = if preallocated <= max_samples {
        preallocated
    } else {
        max_samples
    };
    (max_samples, capacity)
}

/// `s` cut down to its first `max` elements.
pub open spec fn capped<T>(s: Seq<T>, max: int) -> Seq<T> {
    if s.len() <= max {
        s
    } else {
        s.take(max)
    }
}

/// Adds newly captured frames to the recording, which never grows past
/// `max` samples: once full, later frames are dropped.
pub fn append_capped<T: Copy>(out: &mut Vec<T>, frames: &[T], max: usize)
    ensures
        old(out)@.len() <= max ==> final(out)@.len() <= max,
        final(out)@ == if old(out)@.len() < max {
            capped(old(out)@ + frames@, max as int)
        } else {
            old(out)@
        },
{
    if out.len() >= max {
        return ;
    }
    let ghost start = out@;
    let mut i: usize = 0;
    while i < frames.len() && out.len() < max
        invariant
            i <= frames.len(),
            start.len() < max,
            out@ == start + frames@.take(i as int),
            out@.len() <= max,
        decreases frames.len() - i,
    {
        out.push(frames[i]);
        assert(frames@.take(i as int + 1) == frames@.take(i as int).push(frames@[i as int]));
        i = i + 1;
    }
    proof {
        let all = start + frames@;
        if i == frames.len() {
            assert(frames@.take(i as int) == frames@);
        } else {
            assert(out@.len() == max);
            assert(out@ == all.take(max as int));
        }
    }
}

} // verus!
