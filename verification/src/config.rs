//! The configuration record: what the user chose on the command line. The
//! generators read it and never change it.

use vstd::prelude::*;

verus! {

/// The choices of one run.
#[derive(Debug)]
pub struct ConfigElp {
    /// The call sign, used as it was given.
    pub call_sign: String,
    /// The kind of message: `ANY` or `ATIS`.
    pub msg_type: String,
    /// How many messages are produced.
    pub num_msg: u32,
    /// The speech rate in words per minute.
    pub rate: u32,
    /// The pause between two messages in seconds.
    pub pause: u32,
    /// Whether a message is spoken segment by segment, split at its commas.
    pub comma: bool,
    /// Whether each message is spoken twice.
    pub sayagain: bool,
    /// The tag of the voice.
    pub voice: String,
}

impl ConfigElp {
    /// The record with the given choices.
    pub fn new(
        call_sign: String,
        msg_type: String,
        num_msg: u32,
        rate: u32,
        pause: u32,
        comma: bool,
        sayagain: bool,
        voice: String,
    ) -> (config: ConfigElp)
        ensures
            config == (ConfigElp {
                call_sign,
                msg_type,
                num_msg,
                rate,
                pause,
                comma,
                sayagain,
                voice,
            }),
    {
        ConfigElp { call_sign, msg_type, num_msg, rate, pause, comma, sayagain, voice }
    }

    /// A flag given as a number: zero is `false`, anything else `true`.
    pub fn parse_bool(x: u32) -> (flag: bool)
        ensures
            flag == (x != 0),
    {
        x != 0
    }

    /// How often each message is spoken: twice where the user asked for it
    /// to be said again, else once.
    pub fn repetitions(&self) -> (times: u32)
        ensures
            times == if self.sayagain {
                2u32
            } else {
                1u32
            },
    {
        if self.sayagain {
            2
        } else {
            1
        }
    }

    /// Whether the record is that of a run in which the user chose nothing:
    /// one `ANY` message for `A6KIA`, 180 words per minute, five seconds of
    /// pause, no splitting at commas, no repetition, the voice `ATC0`.
    pub open spec fn is_initial(&self) -> bool {
        &&& self.call_sign@ == "A6KIA"@
        &&& self.msg_type@ == "ANY"@
        &&& self.num_msg == 1
        &&& self.rate == 180
        &&& self.pause == 5
        &&& !self.comma
        &&& !self.sayagain
        &&& self.voice@ == "ATC0"@
    }
}

impl Default for ConfigElp {
    /// The record of a run in which the user chose nothing.
    fn default() -> (config: ConfigElp)
        ensures
            config.is_initial(),
    {
        ConfigElp {
            call_sign: String::from_str("A6KIA"),
            msg_type: String::from_str("ANY"),
            num_msg: 1,
            rate: 180,
            pause: 5,
            comma: false,
            sayagain: false,
            voice: String::from_str("ATC0"),
        }
    }
}

impl Clone for ConfigElp {
    fn clone(&self) -> (copy: ConfigElp)
        ensures
            copy == *self,
    {
        clone_config(self)
    }
}

/// A copy of the record: the reader holds nothing of the record itself.
pub fn clone_config(config: &ConfigElp) -> (copy: ConfigElp)
    ensures
        copy == *config,
{
    ConfigElp {
        call_sign: config.call_sign.clone(),
        msg_type: config.msg_type.clone(),
        num_msg: config.num_msg,
        rate: config.rate,
        pause: config.pause,
        comma: config.comma,
        sayagain: config.sayagain,
        voice: config.voice.clone(),
    }
}

} // verus!
