//! The supported runtime versions of the external ship process, with their
//! textual form as persisted in a pier's configuration.

use vstd::prelude::*;

use crate::text::str_eq;

verus! {

/// A runtime version of the external ship process.
#[derive(Clone, Copy, Debug, PartialEq, Eq, Structural, Hash)]
pub enum UrbitVersion {
    UrbitV1_0,
    UrbitV1_1,
    UrbitV1_2,
    UrbitV1_3,
    UrbitV1_4,
    UrbitV1_5,
    UrbitV1_6,
    UrbitV1_7,
    UrbitV1_8,
    UrbitV1_9,
}

/// The canonical textual form of a version, as written to configuration.
pub open spec fn version_chars(v: UrbitVersion) -> Seq<char> {
    match v {
        UrbitVersion::UrbitV1_0 => "v1.0"@,
        UrbitVersion::UrbitV1_1 => "v1.1"@,
        UrbitVersion::UrbitV1_2 => "v1.2"@,
        UrbitVersion::UrbitV1_3 => "v1.3"@,
        UrbitVersion::UrbitV1_4 => "v1.4"@,
        UrbitVersion::UrbitV1_5 => "v1.5"@,
        UrbitVersion::UrbitV1_6 => "v1.6"@,
        UrbitVersion::UrbitV1_7 => "v1.7"@,
        UrbitVersion::UrbitV1_8 => "v1.8"@,
        UrbitVersion::UrbitV1_9 => "v1.9"@,
    }
}

/// The version a string spells: the canonical `vMAJOR.MINOR` form and the
/// bare `MAJOR.MINOR` form are both accepted.
pub open spec fn version_of_chars(s: Seq<char>) -> Option<UrbitVersion> {
    if s == "v1.0"@ || s == "1.0"@ {
        Some(UrbitVersion::UrbitV1_0)
    } else if s == "v1.1"@ || s == "1.1"@ {
        Some(UrbitVersion::UrbitV1_1)
    } else if s == "v1.2"@ || s == "1.2"@ {
        Some(UrbitVersion::UrbitV1_2)
    } else if s == "v1.3"@ || s == "1.3"@ {
        Some(UrbitVersion::UrbitV1_3)
    } else if s == "v1.4"@ || s == "1.4"@ {
        Some(UrbitVersion::UrbitV1_4)
    } else if s == "v1.5"@ || s == "1.5"@ {
        Some(UrbitVersion::UrbitV1_5)
    } else if s == "v1.6"@ || s == "1.6"@ {
        Some(UrbitVersion::UrbitV1_6)
    } else if s == "v1.7"@ || s == "1.7"@ {
        Some(UrbitVersion::UrbitV1_7)
    } else if s == "v1.8"@ || s == "1.8"@ {
        Some(UrbitVersion::UrbitV1_8)
    } else if s == "v1.9"@ || s == "1.9"@ {
        Some(UrbitVersion::UrbitV1_9)
    } else {
        None
    }
}

impl UrbitVersion {
    /// The canonical textual form, e.g. `v1.9`.
    pub fn version_str(&self) -> (r: &'static str)
        ensures
            r@ == version_chars(*self),
    {
        match self {
            UrbitVersion::UrbitV1_0 => "v1.0",
            UrbitVersion::UrbitV1_1 => "v1.1",
            UrbitVersion::UrbitV1_2 => "v1.2",
            UrbitVersion::UrbitV1_3 => "v1.3",
            UrbitVersion::UrbitV1_4 => "v1.4",
            UrbitVersion::UrbitV1_5 => "v1.5",
            UrbitVersion::UrbitV1_6 => "v1.6",
            UrbitVersion::UrbitV1_7 => "v1.7",
            UrbitVersion::UrbitV1_8 => "v1.8",
            UrbitVersion::UrbitV1_9 => "v1.9",
        }
    }

    /// Parse a version from its textual form, canonical or bare.
    pub fn parse(s: &str) -> (r: Option<UrbitVersion>)
        ensures
            r == version_of_chars(s@),
    {
        if str_eq(s, "v1.0") || str_eq(s, "1.0") {
            Some(UrbitVersion::UrbitV1_0)
        } else if str_eq(s, "v1.1") || str_eq(s, "1.1") {
            Some(UrbitVersion::UrbitV1_1)
        } else if str_eq(s, "v1.2") || str_eq(s, "1.2") {
            Some(UrbitVersion::UrbitV1_2)
        } else if str_eq(s, "v1.3") || str_eq(s, "1.3") {
            Some(UrbitVersion::UrbitV1_3)
        } else if str_eq(s, "v1.4") || str_eq(s, "1.4") {
            Some(UrbitVersion::UrbitV1_4)
        } else if str_eq(s, "v1.5") || str_eq(s, "1.5") {
            Some(UrbitVersion::UrbitV1_5)
        } else if str_eq(s, "v1.6") || str_eq(s, "1.6") {
            Some(UrbitVersion::UrbitV1_6)
        } else if str_eq(s, "v1.7") || str_eq(s, "1.7") {
            Some(UrbitVersion::UrbitV1_7)
        } else if str_eq(s, "v1.8") || str_eq(s, "1.8") {
            Some(UrbitVersion::UrbitV1_8)
        } else if str_eq(s, "v1.9") || str_eq(s, "1.9") {
            Some(UrbitVersion::UrbitV1_9)
        } else {
            None
        }
    }
}

impl Default for UrbitVersion {
    /// New piers are provisioned at the newest supported runtime version.
    fn default() -> (r: Self)
        ensures
            r == UrbitVersion::UrbitV1_9,
    {
        UrbitVersion::UrbitV1_9
    }
}

/// The canonical text of every version is four characters, contains no
/// quote, and parses back to the version it came from.
pub proof fn lemma_version_roundtrip(v: UrbitVersion)
    ensures
        version_chars(v).len() == 4,
        forall|i: int| 0 <= i < 4 ==> #[trigger] version_chars(v)[i] != '"',
        version_of_chars(version_chars(v)) == Some(v),
{
    reveal_strlit("v1.0");
    reveal_strlit("v1.1");
    reveal_strlit("v1.2");
    reveal_strlit("v1.3");
    reveal_strlit("v1.4");
    reveal_strlit("v1.5");
    reveal_strlit("v1.6");
    reveal_strlit("v1.7");
    reveal_strlit("v1.8");
    reveal_strlit("v1.9");
    reveal_strlit("1.0");
    reveal_strlit("1.1");
    reveal_strlit("1.2");
    reveal_strlit("1.3");
    reveal_strlit("1.4");
    reveal_strlit("1.5");
    reveal_strlit("1.6");
    reveal_strlit("1.7");
    reveal_strlit("1.8");
    reveal_strlit("1.9");
    assert("v1.0"@.len() == 4 && "v1.0"@[0] == 'v' && "v1.0"@[3] == '0');
    assert("v1.1"@.len() == 4 && "v1.1"@[0] == 'v' && "v1.1"@[3] == '1');
    assert("v1.2"@.len() == 4 && "v1.2"@[0] == 'v' && "v1.2"@[3] == '2');
    assert("v1.3"@.len() == 4 && "v1.3"@[0] == 'v' && "v1.3"@[3] == '3');
    assert("v1.4"@.len() == 4 && "v1.4"@[0] == 'v' && "v1.4"@[3] == '4');
    assert("v1.5"@.len() == 4 && "v1.5"@[0] == 'v' && "v1.5"@[3] == '5');
    assert("v1.6"@.len() == 4 && "v1.6"@[0] == 'v' && "v1.6"@[3] == '6');
    assert("v1.7"@.len() == 4 && "v1.7"@[0] == 'v' && "v1.7"@[3] == '7');
    assert("v1.8"@.len() == 4 && "v1.8"@[0] == 'v' && "v1.8"@[3] == '8');
    assert("v1.9"@.len() == 4 && "v1.9"@[0] == 'v' && "v1.9"@[3] == '9');
    assert("1.0"@.len() == 3);
    assert("1.1"@.len() == 3);
    assert("1.2"@.len() == 3);
    assert("1.3"@.len() == 3);
    assert("1.4"@.len() == 3);
    assert("1.5"@.len() == 3);
    assert("1.6"@.len() == 3);
    assert("1.7"@.len() == 3);
    assert("1.8"@.len() == 3);
    assert("1.9"@.len() == 3);
    match v {
        UrbitVersion::UrbitV1_0 => {
            assert(version_of_chars(version_chars(v)) == Some(v));
        },
        UrbitVersion::UrbitV1_1 => {
            assert(version_of_chars(version_chars(v)) == Some(v));
        },
        UrbitVersion::UrbitV1_2 => {
            assert(version_of_chars(version_chars(v)) == Some(v));
        },
        UrbitVersion::UrbitV1_3 => {
            assert(version_of_chars(version_chars(v)) == Some(v));
        },
        UrbitVersion::UrbitV1_4 => {
            assert(version_of_chars(version_chars(v)) == Some(v));
        },
        UrbitVersion::UrbitV1_5 => {
            assert(version_of_chars(version_chars(v)) == Some(v));
        },
        UrbitVersion::UrbitV1_6 => {
            assert(version_of_chars(version_chars(v)) == Some(v));
        },
        UrbitVersion::UrbitV1_7 => {
            assert(version_of_chars(version_chars(v)) == Some(v));
        },
        UrbitVersion::UrbitV1_8 => {
            assert(version_of_chars(version_chars(v)) == Some(v));
        },
        UrbitVersion::UrbitV1_9 => {
            assert(version_of_chars(version_chars(v)) == Some(v));
        },
    }
}

} // verus!
