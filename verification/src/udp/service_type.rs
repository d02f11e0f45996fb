//! Network service types: how the operating system queues a socket's traffic.

use vstd::prelude::*;
use crate::fields::{all_spaces, trim, trimmed, trimming_takes_the_spaces_off};
use crate::text::{Spaces, chars_of, lower, lower_char, same_chars, to_lower_char};

verus! {

/// A network service type.
#[derive(Clone, Copy, Debug, PartialEq, Eq, Structural)]
pub enum NetServiceType {
    BestEffort,
    Background,
    Signaling,
    InteractiveVideo,
    InteractiveVoice,
    ResponsiveMultimedia,
    AudioVideo,
    Oam,
    ResponsiveData,
}

/// The service type that fits tunnels.
pub const VPN_SERVICE_TYPE: NetServiceType = NetServiceType::Oam;

impl NetServiceType {
    pub open spec fn spec_name(self) -> Seq<char> {
        match self {
            NetServiceType::BestEffort => "be"@,
            NetServiceType::Background => "bk"@,
            NetServiceType::Signaling => "sig"@,
            NetServiceType::InteractiveVideo => "vi"@,
            NetServiceType::InteractiveVoice => "vo"@,
            NetServiceType::ResponsiveMultimedia => "rv"@,
            NetServiceType::AudioVideo => "av"@,
            NetServiceType::Oam => "oam"@,
            NetServiceType::ResponsiveData => "rd"@,
        }
    }

    pub fn name(self) -> (name: &'static str)
        ensures
            name@ == self.spec_name(),
    {
        match self {
            NetServiceType::BestEffort => "be",
            NetServiceType::Background => "bk",
            NetServiceType::Signaling => "sig",
            NetServiceType::InteractiveVideo => "vi",
            NetServiceType::InteractiveVoice => "vo",
            NetServiceType::ResponsiveMultimedia => "rv",
            NetServiceType::AudioVideo => "av",
            NetServiceType::Oam => "oam",
            NetServiceType::ResponsiveData => "rd",
        }
    }

    /// The number of the service type as a socket option.
    pub open spec fn spec_value(self) -> i32 {
        match self {
            NetServiceType::BestEffort => 0,
            NetServiceType::Background => 1,
            NetServiceType::Signaling => 2,
            NetServiceType::InteractiveVideo => 3,
            NetServiceType::InteractiveVoice => 4,
            NetServiceType::ResponsiveMultimedia => 5,
            NetServiceType::AudioVideo => 6,
            NetServiceType::Oam => 7,
            NetServiceType::ResponsiveData => 8,
        }
    }

    pub fn value(self) -> (value: i32)
        ensures
            value == self.spec_value(),
    {
        match self {
            NetServiceType::BestEffort => 0,
            NetServiceType::Background => 1,
            NetServiceType::Signaling => 2,
            NetServiceType::InteractiveVideo => 3,
            NetServiceType::InteractiveVoice => 4,
            NetServiceType::ResponsiveMultimedia => 5,
            NetServiceType::AudioVideo => 6,
            NetServiceType::Oam => 7,
            NetServiceType::ResponsiveData => 8,
        }
    }
}

/// The service type of a socket for which none was asked.
pub fn default_service_type() -> (service_type: Option<NetServiceType>)
    ensures
        service_type == Some(NetServiceType::ResponsiveData),
{
    Some(NetServiceType::ResponsiveData)
}

/// A text without its hyphens and underscores, in lower case.
pub open spec fn folded(s: Seq<char>) -> Seq<char>
    decreases s.len(),
{
    if s.len() == 0 {
        Seq::empty()
    } else {
        let rest = folded(s.drop_last());
        if s.last() == '-' || s.last() == '_' {
            rest
        } else {
            rest.push(lower_char(s.last()))
        }
    }
}

/// A setting as it is looked up: without spaces around it, hyphens and
/// underscores, and in lower case.
pub open spec fn setting_word(raw: Seq<char>) -> Seq<char> {
    folded(trimmed(raw))
}

/// The service type that a word asks for, where it asks for one or for none.
pub open spec fn service_type_of(word: Seq<char>) -> Result<Option<NetServiceType>, ()> {
    if word == ""@ || word == "off"@ || word == "none"@ || word == "disabled"@ || word
        == "disable"@ || word == "unset"@ || word == "default"@ {
        Ok(None)
    } else if word == "vpn"@ || word == "oam"@ {
        Ok(Some(VPN_SERVICE_TYPE))
    } else if word == "be"@ || word == "besteffort"@ {
        Ok(Some(NetServiceType::BestEffort))
    } else if word == "bk"@ || word == "background"@ {
        Ok(Some(NetServiceType::Background))
    } else if word == "sig"@ || word == "signaling"@ {
        Ok(Some(NetServiceType::Signaling))
    } else if word == "vi"@ || word == "interactivevideo"@ || word == "video"@ {
        Ok(Some(NetServiceType::InteractiveVideo))
    } else if word == "vo"@ || word == "interactivevoice"@ || word == "voice"@ {
        Ok(Some(NetServiceType::InteractiveVoice))
    } else if word == "rv"@ || word == "responsivemultimedia"@ || word
        == "responsivemultimediavideo"@ {
        Ok(Some(NetServiceType::ResponsiveMultimedia))
    } else if word == "av"@ || word == "multimedia"@ || word == "audiovideo"@ {
        Ok(Some(NetServiceType::AudioVideo))
    } else if word == "rd"@ || word == "responsivedata"@ {
        Ok(Some(NetServiceType::ResponsiveData))
    } else {
        Err(())
    }
}

fn is_word(word: &Vec<char>, expected: &str) -> (yes: bool)
    ensures
        yes == (word@ == expected@),
{
    let letters = chars_of(expected);
    same_chars(word, &letters)
}

fn setting_word_of(raw: &str) -> (word: Vec<char>)
    ensures
        word@ == setting_word(raw@),
{
    let v = chars_of(raw);
    let (start, end) = trim(&v);
    let ghost kept = v@.subrange(start as int, end as int);
    let mut word: Vec<char> = Vec::new();
    let mut i: usize = start;
    assert(kept.take(0) =~= Seq::<char>::empty());
    while i < end
        invariant
            start <= i <= end <= v@.len(),
            kept == v@.subrange(start as int, end as int),
            word@ == folded(kept.take(i - start)),
        decreases end - i,
    {
        let c = v[i];
        proof {
            let next = kept.take(i - start + 1);
            assert(next.drop_last() =~= kept.take(i - start));
            assert(next.last() == c);
        }
        if c != '-' && c != '_' {
            word.push(to_lower_char(c));
        }
        i = i + 1;
    }
    assert(kept.take(end - start) =~= kept);
    word
}

/// Reads the setting of the network service type.
pub fn parse_net_service_type(raw: &str) -> (result: Result<Option<NetServiceType>, ()>)
    ensures
        result == service_type_of(setting_word(raw@)),
{
    let word = setting_word_of(raw);
    if is_word(&word, "") || is_word(&word, "off") || is_word(&word, "none") || is_word(
        &word,
        "disabled",
    ) || is_word(&word, "disable") || is_word(&word, "unset") || is_word(&word, "default") {
        return Ok(None);
    }
    if is_word(&word, "vpn") || is_word(&word, "oam") {
        return Ok(Some(VPN_SERVICE_TYPE));
    }
    if is_word(&word, "be") || is_word(&word, "besteffort") {
        return Ok(Some(NetServiceType::BestEffort));
    }
    if is_word(&word, "bk") || is_word(&word, "background") {
        return Ok(Some(NetServiceType::Background));
    }
    if is_word(&word, "sig") || is_word(&word, "signaling") {
        return Ok(Some(NetServiceType::Signaling));
    }
    if is_word(&word, "vi") || is_word(&word, "interactivevideo") || is_word(&word, "video") {
        return Ok(Some(NetServiceType::InteractiveVideo));
    }
    if is_word(&word, "vo") || is_word(&word, "interactivevoice") || is_word(&word, "voice") {
        return Ok(Some(NetServiceType::InteractiveVoice));
    }
    if is_word(&word, "rv") || is_word(&word, "responsivemultimedia") || is_word(
        &word,
        "responsivemultimediavideo",
    ) {
        return Ok(Some(NetServiceType::ResponsiveMultimedia));
    }
    if is_word(&word, "av") || is_word(&word, "multimedia") || is_word(&word, "audiovideo") {
        return Ok(Some(NetServiceType::AudioVideo));
    }
    if is_word(&word, "rd") || is_word(&word, "responsivedata") {
        return Ok(Some(NetServiceType::ResponsiveData));
    }
    Err(())
}

/// The service type that a socket gets: the one that the setting asks for, and
/// the default where there is no setting or it cannot be read.
pub fn chosen_service_type(setting: Option<&str>) -> (service_type: Option<NetServiceType>)
    ensures
        service_type == (match setting {
            Some(raw) => match service_type_of(setting_word(raw@)) {
                Ok(asked) => asked,
                Err(_) => Some(NetServiceType::ResponsiveData),
            },
            None => Some(NetServiceType::ResponsiveData),
        }),
{
    match setting {
        Some(raw) => match parse_net_service_type(raw) {
            Ok(asked) => asked,
            Err(_) => default_service_type(),
        },
        None => default_service_type(),
    }
}

// ---------------------------------------------------------------------------
// Laws
// ---------------------------------------------------------------------------

/// Settings are read letter by letter: hyphens and underscores are left out,
/// capitals become small, and everything else stays.
pub proof fn settings_are_folded_letter_by_letter(a: Seq<char>, b: Seq<char>, c: char)
    ensures
        folded(a + b) == folded(a) + folded(b),
        folded(Seq::empty()) == Seq::<char>::empty(),
        c == '-' || c == '_' ==> folded(seq![c]) == Seq::<char>::empty(),
        c != '-' && c != '_' ==> folded(seq![c]) == lower(seq![c]),
    decreases b.len(),
{
    let one = seq![c];
    assert(one.drop_last() =~= Seq::<char>::empty());
    assert(folded(one.drop_last()) =~= Seq::<char>::empty());
    assert(lower(one) =~= seq![lower_char(c)]);
    if c != '-' && c != '_' {
        assert(folded(one) =~= lower(one));
    }
    if b.len() == 0 {
        assert(a + b =~= a);
        assert(folded(a) + folded(b) =~= folded(a));
    } else {
        let init = b.drop_last();
        settings_are_folded_letter_by_letter(a, init, c);
        assert((a + b).drop_last() =~= a + init);
        if b.last() != '-' && b.last() != '_' {
            let l = lower_char(b.last());
            assert((folded(a) + folded(init)).push(l) =~= folded(a) + folded(init).push(l));
        }
    }
}

/// Spaces around a setting do not matter.
pub proof fn spaces_around_settings_do_not_matter(
    before: Seq<char>,
    core: Seq<char>,
    after: Seq<char>,
)
    requires
        all_spaces(before, Spaces::Unicode),
        all_spaces(after, Spaces::Unicode),
        core.len() > 0 ==> !Spaces::Unicode.covers(core[0]) && !Spaces::Unicode.covers(
            core.last(),
        ),
    ensures
        setting_word(before + core + after) == folded(core),
{
    trimming_takes_the_spaces_off(before, core, after);
}

/// The names of the service types in the order of their numbers.
pub open spec fn names_in_order() -> Seq<Seq<char>> {
    seq!["be"@, "bk"@, "sig"@, "vi"@, "vo"@, "rv"@, "av"@, "oam"@, "rd"@]
}

/// The number of a service type is the place of its name, and its name asks for it.
pub proof fn names_ask_for_their_types(service_type: NetServiceType)
    ensures
        0 <= service_type.spec_value() < 9,
        names_in_order()[service_type.spec_value() as int] == service_type.spec_name(),
        service_type_of(service_type.spec_name()) == Ok::<Option<NetServiceType>, ()>(
            Some(service_type),
        ),
{
    reveal_strlit("");
    reveal_strlit("off");
    reveal_strlit("none");
    reveal_strlit("disabled");
    reveal_strlit("disable");
    reveal_strlit("unset");
    reveal_strlit("default");
    reveal_strlit("vpn");
    reveal_strlit("oam");
    reveal_strlit("be");
    reveal_strlit("besteffort");
    reveal_strlit("bk");
    reveal_strlit("background");
    reveal_strlit("sig");
    reveal_strlit("signaling");
    reveal_strlit("vi");
    reveal_strlit("interactivevideo");
    reveal_strlit("video");
    reveal_strlit("vo");
    reveal_strlit("interactivevoice");
    reveal_strlit("voice");
    reveal_strlit("rv");
    reveal_strlit("responsivemultimedia");
    reveal_strlit("responsivemultimediavideo");
    reveal_strlit("av");
    reveal_strlit("multimedia");
    reveal_strlit("audiovideo");
    reveal_strlit("rd");
    reveal_strlit("responsivedata");
    let word = service_type.spec_name();
    assert(VPN_SERVICE_TYPE == NetServiceType::Oam);
    match service_type {
        NetServiceType::Oam => {
            assert(word.len() == 3);
            assert(word[1] != "off"@[1]);
            assert(service_type_of(word) == Ok::<Option<NetServiceType>, ()>(
                Some(service_type),
            ));
        },
        NetServiceType::BestEffort => {
            assert(word.len() == 2);
            assert(service_type_of(word) == Ok::<Option<NetServiceType>, ()>(
                Some(service_type),
            ));
        },
        NetServiceType::Background => {
            assert(word.len() == 2);
            assert(word[1] != "be"@[1]);
            assert(service_type_of(word) == Ok::<Option<NetServiceType>, ()>(
                Some(service_type),
            ));
        },
        NetServiceType::Signaling => {
            assert(word.len() == 3);
            assert(word[0] != "off"@[0]);
            assert(word[0] != "vpn"@[0]);
            assert(word[0] != "oam"@[0]);
            assert(service_type_of(word) == Ok::<Option<NetServiceType>, ()>(
                Some(service_type),
            ));
        },
        NetServiceType::InteractiveVideo => {
            assert(word.len() == 2);
            assert(word[0] != "be"@[0]);
            assert(word[0] != "bk"@[0]);
            assert(service_type_of(word) == Ok::<Option<NetServiceType>, ()>(
                Some(service_type),
            ));
        },
        NetServiceType::InteractiveVoice => {
            assert(word.len() == 2);
            assert(word[0] != "be"@[0]);
            assert(word[0] != "bk"@[0]);
            assert(word[1] != "vi"@[1]);
            assert(service_type_of(word) == Ok::<Option<NetServiceType>, ()>(
                Some(service_type),
            ));
        },
        NetServiceType::ResponsiveMultimedia => {
            assert(word.len() == 2);
            assert(word[0] != "be"@[0]);
            assert(word[0] != "bk"@[0]);
            assert(word[0] != "vi"@[0]);
            assert(word[0] != "vo"@[0]);
            assert(service_type_of(word) == Ok::<Option<NetServiceType>, ()>(
                Some(service_type),
            ));
        },
        NetServiceType::AudioVideo => {
            assert(word.len() == 2);
            assert(word[0] != "be"@[0]);
            assert(word[0] != "bk"@[0]);
            assert(word[0] != "vi"@[0]);
            assert(word[0] != "vo"@[0]);
            assert(word[0] != "rv"@[0]);
            assert(service_type_of(word) == Ok::<Option<NetServiceType>, ()>(
                Some(service_type),
            ));
        },
        NetServiceType::ResponsiveData => {
            assert(word.len() == 2);
            assert(word[0] != "be"@[0]);
            assert(word[0] != "bk"@[0]);
            assert(word[0] != "vi"@[0]);
            assert(word[0] != "vo"@[0]);
            assert(word[1] != "rv"@[1]);
            assert(word[0] != "av"@[0]);
            assert(service_type_of(word) == Ok::<Option<NetServiceType>, ()>(
                Some(service_type),
            ));
        },
    }
}

} // verus!
