//! The output formats of a stream and what the engine needs to mux each.

use vstd::prelude::*;
use vstd::string::*;

verus! {

/// An output format. The stream's graph encodes the upload into each of
/// them; a branch muxes one of them for its consumers.
#[derive(Clone, Copy, Debug, PartialEq, Eq, Structural)]
pub enum Format {
    Mp3,
    Ogg,
    M4a,
    Opus,
}

/// How many formats there are.
pub const FORMATS: usize = 4;

impl Format {
    /// The name of the format in a request, which is also the name of the
    /// point of the stream's graph at which its encoded output is handed out.
    pub open spec fn name(self) -> Seq<char> {
        match self {
            Format::Mp3 => "mp3"@,
            Format::Ogg => "ogg"@,
            Format::M4a => "m4a"@,
            Format::Opus => "opus"@,
        }
    }

    /// The format that a request names, if it names one.
    pub open spec fn named(name: Seq<char>) -> Option<Format> {
        if name == "mp3"@ {
            Some(Format::Mp3)
        } else if name == "ogg"@ {
            Some(Format::Ogg)
        } else if name == "m4a"@ {
            Some(Format::M4a)
        } else if name == "opus"@ {
            Some(Format::Opus)
        } else {
            None
        }
    }

    /// The name of the engine's muxer for the format.
    pub open spec fn muxer(self) -> Seq<char> {
        match self {
            Format::Mp3 => "mpegpsmux"@,
            Format::Ogg => "oggmux"@,
            Format::M4a => "mp4mux"@,
            Format::Opus => "oggmux"@,
        }
    }

    /// The settings of the muxer for the format: names and values.
    pub open spec fn config(self) -> Seq<(Seq<char>, i32)> {
        match self {
            Format::M4a => seq![("fragment-duration"@, 1000i32)],
            _ => Seq::empty(),
        }
    }

    /// The place of the format among the formats.
    pub open spec fn place(self) -> int {
        match self {
            Format::Mp3 => 0,
            Format::Ogg => 1,
            Format::M4a => 2,
            Format::Opus => 3,
        }
    }

    /// The place of the format among the formats.
    pub fn index(self) -> (i: usize)
        ensures
            i == self.place(),
            i < FORMATS,
    {
        match self {
            Format::Mp3 => 0,
            Format::Ogg => 1,
            Format::M4a => 2,
            Format::Opus => 3,
        }
    }

    /// The format that `name` names, if it names one.
    pub fn parse(name: &str) -> (format: Option<Format>)
        ensures
            format == Format::named(name@),
    {
        let name = name.to_owned();
        if name == "mp3".to_owned() {
            Some(Format::Mp3)
        } else if name == "ogg".to_owned() {
            Some(Format::Ogg)
        } else if name == "m4a".to_owned() {
            Some(Format::M4a)
        } else if name == "opus".to_owned() {
            Some(Format::Opus)
        } else {
            None
        }
    }

    /// The name of the format.
    pub fn tee_name(self) -> (name: &'static str)
        ensures
            name@ == self.name(),
    {
        match self {
            Format::Mp3 => "mp3",
            Format::Ogg => "ogg",
            Format::M4a => "m4a",
            Format::Opus => "opus",
        }
    }

    /// The name of the engine's muxer for the format.
    pub fn muxer_element(self) -> (name: &'static str)
        ensures
            name@ == self.muxer(),
    {
        match self {
            Format::Mp3 => "mpegpsmux",
            Format::Ogg => "oggmux",
            Format::M4a => "mp4mux",
            Format::Opus => "oggmux",
        }
    }

    /// The settings of the muxer for the format.
    pub fn muxer_config(self) -> (config: Vec<(&'static str, i32)>)
        ensures
            config@.len() == self.config().len(),
            forall|i: int|
                0 <= i < config@.len() ==> (#[trigger] config@[i]).0@ == self.config()[i].0
                    && config@[i].1 == self.config()[i].1,
    {
        let mut config: Vec<(&'static str, i32)> = Vec::new();
        match self {
            Format::M4a => {
                config.push(("fragment-duration", 1000));
            },
            _ => {},
        }
        config
    }
}

/// A format is found again by its name: the four names differ.
pub proof fn law_format_of_its_name(format: Format)
    ensures
        Format::named(format.name()) == Some(format),
{
    reveal_strlit("mp3");
    reveal_strlit("ogg");
    reveal_strlit("m4a");
    reveal_strlit("opus");
    assert("mp3"@.len() == 3 && "ogg"@.len() == 3 && "m4a"@.len() == 3 && "opus"@.len() == 4);
    assert("mp3"@[0] == 'm' && "ogg"@[0] == 'o' && "m4a"@[1] == '4' && "mp3"@[1] == 'p');
}

/// A set of formats.
#[derive(Clone, Copy, Debug)]
pub struct FormatSet {
    mp3: bool,
    ogg: bool,
    m4a: bool,
    opus: bool,
}

impl View for FormatSet {
    type V = Set<Format>;

    closed spec fn view(&self) -> Set<Format> {
        Set::new(
            |f: Format|
                match f {
                    Format::Mp3 => self.mp3,
                    Format::Ogg => self.ogg,
                    Format::M4a => self.m4a,
                    Format::Opus => self.opus,
                },
        )
    }
}

impl FormatSet {
    /// The empty set.
    pub fn new() -> (set: Self)
        ensures
            set@ == Set::<Format>::empty(),
    {
        let set = FormatSet { mp3: false, ogg: false, m4a: false, opus: false };
        set
    }

    /// Whether `format` is in the set.
    pub fn contains(&self, format: Format) -> (found: bool)
        ensures
            found == self@.contains(format),
    {
        match format {
            Format::Mp3 => self.mp3,
            Format::Ogg => self.ogg,
            Format::M4a => self.m4a,
            Format::Opus => self.opus,
        }
    }

    /// Puts `format` into the set.
    pub fn insert(&mut self, format: Format)
        ensures
            final(self)@ == old(self)@.insert(format),
    {
        match format {
            Format::Mp3 => {
                self.mp3 = true;
            },
            Format::Ogg => {
                self.ogg = true;
            },
            Format::M4a => {
                self.m4a = true;
            },
            Format::Opus => {
                self.opus = true;
            },
        }
    }

    /// Takes `format` out of the set.
    pub fn remove(&mut self, format: Format)
        ensures
            final(self)@ == old(self)@.remove(format),
    {
        match format {
            Format::Mp3 => {
                self.mp3 = false;
            },
            Format::Ogg => {
                self.ogg = false;
            },
            Format::M4a => {
                self.m4a = false;
            },
            Format::Opus => {
                self.opus = false;
            },
        }
    }
}

} // verus!
