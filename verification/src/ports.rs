//! The gain plugin's audio ports: one main input and one main output whose
//! channel count the host may renegotiate, and the rule that decides which
//! renegotiations are accepted.
use vstd::prelude::*;

verus! {

/// The channel layout a port announces.
#[derive(Debug, Clone, Copy, PartialEq, Eq, Structural)]
pub enum AudioPortType {
    Mono,
    Stereo,
    Unspecified,
}

/// One entry of a host's request to reconfigure the audio ports.
#[derive(Debug, Clone, Copy, PartialEq, Eq, Structural)]
pub struct AudioPortConfigurationRequest {
    pub is_input: bool,
    pub port_index: u32,
    pub channel_count: u32,
    pub port_type: AudioPortType,
}

/// The layout named by a channel count: one is mono, two is stereo.
pub open spec fn port_type_of(channel_count: u32) -> AudioPortType {
    if channel_count == 1 {
        AudioPortType::Mono
    } else if channel_count == 2 {
        AudioPortType::Stereo
    } else {
        AudioPortType::Unspecified
    }
}

/// The port type announced for a channel count.
pub fn audio_port_type(channel_count: u32) -> (r: AudioPortType)
    ensures
        r == port_type_of(channel_count),
{
    match channel_count {
        1 => AudioPortType::Mono,
        2 => AudioPortType::Stereo,
        _ => AudioPortType::Unspecified,
    }
}

/// A request the plugin can honour on its own: mono or stereo, with a port
/// type that agrees with the channel count or is left open.
pub open spec fn supported_request(request: AudioPortConfigurationRequest) -> bool {
    (request.channel_count == 1 && (request.port_type == AudioPortType::Mono
        || request.port_type == AudioPortType::Unspecified))
    || (request.channel_count == 2 && (request.port_type == AudioPortType::Stereo
        || request.port_type == AudioPortType::Unspecified))
}

/// Whether one request entry is a layout the plugin supports.
pub fn is_supported_audio_port_request(request: &AudioPortConfigurationRequest) -> (r: bool)
    ensures
        r == supported_request(*request),
{
    match (request.channel_count, request.port_type) {
        (1, AudioPortType::Mono) | (1, AudioPortType::Unspecified) => true,
        (2, AudioPortType::Stereo) | (2, AudioPortType::Unspecified) => true,
        _ => false,
    }
}

/// Every entry addresses the main port (index 0) with a supported layout.
pub open spec fn requests_acceptable(requests: Seq<AudioPortConfigurationRequest>) -> bool {
    forall|i: int|
        0 <= i < requests.len() ==> (#[trigger] requests[i]).port_index == 0 && supported_request(
            requests[i],
        )
}

/// The channel count one side ends with: the last request for that side, or
/// `current` when no request names it.
pub open spec fn side_channel_count(
    current: u32,
    requests: Seq<AudioPortConfigurationRequest>,
    is_input: bool,
) -> u32
    decreases requests.len(),
{
    if requests.len() == 0 {
        current
    } else if requests.last().is_input == is_input {
        requests.last().channel_count
    } else {
        side_channel_count(current, requests.drop_last(), is_input)
    }
}

/// The channel count a reconfiguration settles on: accepted only when every
/// entry is acceptable and input and output end up with the same count.
pub open spec fn resolved_channel_count(
    current: u32,
    requests: Seq<AudioPortConfigurationRequest>,
) -> Option<u32> {
    if requests_acceptable(requests) && side_channel_count(current, requests, true)
        == side_channel_count(current, requests, false) {
        Some(side_channel_count(current, requests, true))
    } else {
        None
    }
}

/// Reads a port reconfiguration request and returns the new channel count
/// when it can be accepted: only symmetric requests on the main port pair.
pub fn resolve_audio_channel_count(
    current_channel_count: u32,
    requests: &[AudioPortConfigurationRequest],
) -> (r: Option<u32>)
    ensures
        r == resolved_channel_count(current_channel_count, requests@),
{
    let mut input_channel_count = current_channel_count;
    let mut output_channel_count = current_channel_count;
    let mut i: usize = 0;
    while i < requests.len()
        invariant
            i <= requests.len(),
            requests_acceptable(requests@.take(i as int)),
            input_channel_count == side_channel_count(
                current_channel_count,
                requests@.take(i as int),
                true,
            ),
            output_channel_count == side_channel_count(
                current_channel_count,
                requests@.take(i as int),
                false,
            ),
        decreases requests.len() - i,
    {
        let request = &requests[i];
        let ghost next = requests@.take(i + 1);
        assert(next.drop_last() =~= requests@.take(i as int));
        assert(next.last() == requests@[i as int]);
        if request.port_index != 0 || !is_supported_audio_port_request(request) {
            assert(!requests_acceptable(requests@)) by {
                assert(requests@[i as int] == *request);
            }
            return None;
        }
        if request.is_input {
            input_channel_count = request.channel_count;
        } else {
            output_channel_count = request.channel_count;
        }
        assert forall|j: int| 0 <= j < next.len() implies (#[trigger] next[j]).port_index == 0
            && supported_request(next[j]) by {
            if j < i {
                assert(next[j] == requests@.take(i as int)[j]);
            }
        }
        i += 1;
    }
    assert(requests@.take(i as int) =~= requests@);
    if input_channel_count == output_channel_count {
        Some(input_channel_count)
    } else {
        None
    }
}

/// What the host is told about one audio port.
#[derive(Debug, Clone, PartialEq, Eq)]
pub struct AudioPortInfo {
    pub id: u32,
    pub name: &'static str,
    pub is_main: bool,
    pub channel_count: u32,
    pub port_type: AudioPortType,
}

/// Why a reconfiguration was refused.
#[derive(Debug, Clone, Copy, PartialEq, Eq, Structural)]
pub enum PortConfigurationError {
    /// The request is not one the plugin can apply in its current state.
    InvalidState,
}

/// The audio layout agreed with the host: the channel count of the main
/// input and output, which always match. The audio thread does not read it;
/// a processor takes a copy of it when it is activated.
#[derive(Debug, Clone, Copy, PartialEq, Eq, Structural)]
pub struct AudioLayoutStore {
    pub channel_count: u32,
}

impl AudioLayoutStore {
    /// A layout with the given channel count on both sides.
    pub fn new(channel_count: u32) -> (r: Self)
        ensures
            r.channel_count == channel_count,
    {
        AudioLayoutStore { channel_count }
    }

    /// The channel count of the main ports.
    pub fn channel_count(&self) -> (r: u32)
        ensures
            r == self.channel_count,
    {
        self.channel_count
    }

    /// Records a new channel count.
    pub fn set_channel_count(&mut self, channel_count: u32)
        ensures
            final(self).channel_count == channel_count,
    {
        self.channel_count = channel_count;
    }

    /// The number of audio ports on either side: one main port.
    pub fn audio_port_count(&self, is_input: bool) -> (r: u32)
        ensures
            r == 1,
    {
        1
    }

    /// Describes port `index` on one side: only index 0 exists, named
    /// "Main In" (id 1) or "Main Out" (id 2), with the current channel count.
    pub fn audio_port_info(&self, index: u32, is_input: bool) -> (r: Option<AudioPortInfo>)
        ensures
            r is Some <==> index == 0,
            r matches Some(info) ==> {
                &&& info.id == (if is_input { 1u32 } else { 2u32 })
                &&& info.name@ == (if is_input { "Main In"@ } else { "Main Out"@ })
                &&& info.is_main
                &&& info.channel_count == self.channel_count
                &&& info.port_type == port_type_of(self.channel_count)
            },
    {
        if index != 0 {
            return None;
        }
        let channel_count = self.channel_count;
        if is_input {
            Some(
                AudioPortInfo {
                    id: 1,
                    name: "Main In",
                    is_main: true,
                    channel_count,
                    port_type: audio_port_type(channel_count),
                },
            )
        } else {
            Some(
                AudioPortInfo {
                    id: 2,
                    name: "Main Out",
                    is_main: true,
                    channel_count,
                    port_type: audio_port_type(channel_count),
                },
            )
        }
    }

    /// Whether a reconfiguration request would be accepted.
    pub fn can_apply_audio_port_configuration(
        &self,
        requests: &[AudioPortConfigurationRequest],
    ) -> (r: bool)
        ensures
            r == resolved_channel_count(self.channel_count, requests@) is Some,
    {
        resolve_audio_channel_count(self.channel_count, requests).is_some()
    }

    /// Applies a reconfiguration request: the channel count becomes the
    /// resolved one, or the request is refused and the layout stays.
    pub fn apply_audio_port_configuration(
        &mut self,
        requests: &[AudioPortConfigurationRequest],
    ) -> (r: Result<(), PortConfigurationError>)
        ensures
            r is Ok <==> resolved_channel_count(old(self).channel_count, requests@) is Some,
            r is Ok ==> Some(final(self).channel_count) == resolved_channel_count(
                old(self).channel_count,
                requests@,
            ),
            r is Err ==> *final(self) == *old(self),
    {
        match resolve_audio_channel_count(self.channel_count, requests) {
            Some(channel_count) => {
                self.set_channel_count(channel_count);
                Ok(())
            },
            None => Err(PortConfigurationError::InvalidState),
        }
    }
}

/// A refused reconfiguration leaves the layout as it was, and an accepted
/// one is accepted again from the layout it produced: asking twice for the
/// same symmetric layout changes nothing the second time.
pub proof fn lemma_reapply_is_stable(current: u32, requests: Seq<AudioPortConfigurationRequest>)
    requires
        resolved_channel_count(current, requests) is Some,
    ensures
        resolved_channel_count(resolved_channel_count(current, requests)->0, requests)
            == resolved_channel_count(current, requests),
    decreases requests.len(),
{
    let n = resolved_channel_count(current, requests)->0;
    lemma_side_count_shape(current, n, requests, true);
    lemma_side_count_shape(current, n, requests, false);
}

/// A side's final count does not depend on the starting count once some
/// request names that side; otherwise it is the starting count.
proof fn lemma_side_count_shape(
    a: u32,
    b: u32,
    requests: Seq<AudioPortConfigurationRequest>,
    is_input: bool,
)
    ensures
        side_channel_count(a, requests, is_input) == a ==> side_channel_count(b, requests, is_input)
            == b || side_channel_count(b, requests, is_input) == a,
        side_channel_count(a, requests, is_input) != a ==> side_channel_count(b, requests, is_input)
            == side_channel_count(a, requests, is_input),
    decreases requests.len(),
{
    if requests.len() > 0 && requests.last().is_input != is_input {
        lemma_side_count_shape(a, b, requests.drop_last(), is_input);
    }
}

} // verus!
