//! Charm store release channels.

use vstd::prelude::*;

verus! {

/// A charm store channel that a charm revision can be published to.
#[derive(Debug, Clone, Copy, PartialEq, Eq, Structural)]
pub enum Channel {
    Unpublished,
    Edge,
    Beta,
    Candidate,
    Stable,
}

/// The text of each channel name.
pub open spec fn spec_channel_name(c: Channel) -> Seq<char> {
    match c {
        Channel::Unpublished => "unpublished"@,
        Channel::Edge => "edge"@,
        Channel::Beta => "beta"@,
        Channel::Candidate => "candidate"@,
        Channel::Stable => "stable"@,
    }
}

impl Channel {
    /// The channel's name as external tools expect it.
    pub fn to_string(&self) -> (r: String)
        ensures
            r@ == spec_channel_name(*self),
    {
        match self {
            Channel::Unpublished => "unpublished".to_owned(),
            Channel::Edge => "edge".to_owned(),
            Channel::Beta => "beta".to_owned(),
            Channel::Candidate => "candidate".to_owned(),
            Channel::Stable => "stable".to_owned(),
        }
    }

    /// Reads a channel name back; rejects any other text.
    pub fn parse(input: &str) -> (r: Result<Channel, String>)
        ensures
            r matches Ok(c) ==> input@ == spec_channel_name(c),
            r is Err ==> input@ != spec_channel_name(Channel::Unpublished) && input@
                != spec_channel_name(Channel::Edge) && input@ != spec_channel_name(Channel::Beta)
                && input@ != spec_channel_name(Channel::Candidate) && input@
                != spec_channel_name(Channel::Stable),
    {
        let s = input.to_owned();
        if s == "unpublished".to_owned() {
            Ok(Channel::Unpublished)
        } else if s == "edge".to_owned() {
            Ok(Channel::Edge)
        } else if s == "beta".to_owned() {
            Ok(Channel::Beta)
        } else if s == "candidate".to_owned() {
            Ok(Channel::Candidate)
        } else if s == "stable".to_owned() {
            Ok(Channel::Stable)
        } else {
            Err("unknown channel name".to_owned())
        }
    }
}

} // verus!
