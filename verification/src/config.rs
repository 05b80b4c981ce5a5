//! The persisted per-pier configuration and its on-disk textual form.
//!
//! A pier's `config.json` holds exactly three fields — the runtime version,
//! the identifier, and the optional canonical name — in a fixed canonical
//! shape. The encoder and the parser below are each other's inverses, which
//! is what makes an explicit finalize followed by a reload lossless.

use vstd::prelude::*;

use crate::errors::Error;
use crate::text::{
    check_name, in_class, is_hex_digit, is_uuid_str, is_uuid_string, lemma_scan_skip, match_at, match_lit, scan,
    scan_to, valid_name, CharClass,
};
use crate::urbit::{version_chars, version_of_chars, UrbitVersion};

verus! {

/// The mathematical content of a persisted configuration.
pub ghost struct ConfigV {
    pub runtime_version: UrbitVersion,
    pub id: Seq<char>,
    pub name: Option<Seq<char>>,
}

impl ConfigV {
    /// The identifier is a well-formed textual identifier and the name, if
    /// present, is a well-formed pier name.
    pub open spec fn wf(&self) -> bool {
        &&& is_uuid_str(self.id)
        &&& match self.name {
            Some(n) => valid_name(n),
            None => true,
        }
    }
}

/// The persisted configuration of one pier: runtime version, stable
/// identifier, and the canonical name once it is known.
#[derive(Debug)]
pub struct PierConfig {
    pub runtime_version: UrbitVersion,
    pub id: String,
    pub name: Option<String>,
}

impl View for PierConfig {
    type V = ConfigV;

    open spec fn view(&self) -> ConfigV {
        ConfigV {
            runtime_version: self.runtime_version,
            id: self.id@,
            name: match self.name {
                Some(n) => Some(n@),
                None => None,
            },
        }
    }
}

/// The canonical text of a configuration.
pub open spec fn config_chars(c: ConfigV) -> Seq<char> {
    "{\"runtimeVersion\":\""@ + version_chars(c.runtime_version) + "\",\"id\":\""@ + c.id
        + "\",\"@p\":"@ + (match c.name {
        None => "null}"@,
        Some(n) => "\""@ + n + "\"}"@,
    })
}

/// The configuration a text spells, if it is well-shaped canonical text.
pub open spec fn parse_config_chars(s: Seq<char>) -> Option<ConfigV> {
    if !match_at(s, 0, "{\"runtimeVersion\":\""@) {
        None
    } else {
        let j = scan(s, 19, CharClass::Quote);
        match version_of_chars(s.subrange(19, j)) {
            None => None,
            Some(v) => {
                if !match_at(s, j, "\",\"id\":\""@) {
                    None
                } else {
                    let k = scan(s, j + 8, CharClass::Quote);
                    let id = s.subrange(j + 8, k);
                    if !is_uuid_str(id) {
                        None
                    } else if !match_at(s, k, "\",\"@p\":"@) {
                        None
                    } else {
                        let p = k + 7;
                        if match_at(s, p, "null}"@) && s.len() == p + 5 {
                            Some(ConfigV { runtime_version: v, id, name: None })
                        } else if p < s.len() && s[p] == '"' {
                            let m = scan(s, p + 1, CharClass::Quote);
                            let name = s.subrange(p + 1, m);
                            if valid_name(name) && match_at(s, m, "\"}"@) && s.len() == m + 2 {
                                Some(ConfigV { runtime_version: v, id, name: Some(name) })
                            } else {
                                None
                            }
                        } else {
                            None
                        }
                    }
                }
            },
        }
    }
}

impl PierConfig {
    /// Whether this configuration is well-formed.
    pub open spec fn wf(&self) -> bool {
        self@.wf()
    }

    /// Render the configuration in its canonical text.
    pub fn encode(&self) -> (r: String)
        ensures
            r@ == config_chars(self@),
    {
        let mut r = String::from_str("{\"runtimeVersion\":\"");
        r.append(self.runtime_version.version_str());
        r.append("\",\"id\":\"");
        r.append(self.id.as_str());
        r.append("\",\"@p\":");
        match &self.name {
            None => {
                r.append("null}");
            },
            Some(n) => {
                r.append("\"");
                r.append(n.as_str());
                r.append("\"}");
            },
        }
        proof {
            assert(r@ =~= config_chars(self@));
        }
        r
    }

    /// Parse configuration text. Succeeds exactly on well-shaped canonical
    /// text; everything else is reported as corrupt configuration.
    pub fn parse(s: &str) -> (r: Result<PierConfig, Error>)
        ensures
            match parse_config_chars(s@) {
                Some(cv) => r matches Ok(c) && c@ == cv,
                None => r matches Err(e) && e == Error::ConfigCorrupt,
            },
    {
        let n = s.unicode_len();
        if !match_lit(s, 0, "{\"runtimeVersion\":\"") {
            return Err(Error::ConfigCorrupt);
        }
        proof {
            reveal_strlit("{\"runtimeVersion\":\"");
        }
        let j = scan_to(s, 19, CharClass::Quote);
        proof {
            crate::text::lemma_scan_props(s@, 19, CharClass::Quote);
        }
        let version = match UrbitVersion::parse(s.substring_char(19, j)) {
            Some(v) => v,
            None => {
                return Err(Error::ConfigCorrupt);
            },
        };
        if !match_lit(s, j, "\",\"id\":\"") {
            return Err(Error::ConfigCorrupt);
        }
        proof {
            reveal_strlit("\",\"id\":\"");
        }
        let k = scan_to(s, j + 8, CharClass::Quote);
        proof {
            crate::text::lemma_scan_props(s@, j + 8, CharClass::Quote);
        }
        let id = s.substring_char(j + 8, k);
        if !is_uuid_string(id) {
            return Err(Error::ConfigCorrupt);
        }
        if !match_lit(s, k, "\",\"@p\":") {
            return Err(Error::ConfigCorrupt);
        }
        proof {
            reveal_strlit("\",\"@p\":");
        }
        let p = k + 7;
        if match_lit(s, p, "null}") && n - p == 5 {
            proof {
                reveal_strlit("null}");
            }
            return Ok(PierConfig { runtime_version: version, id: id.to_owned(), name: None });
        }
        if p < n && s.get_char(p) == '"' {
            let m = scan_to(s, p + 1, CharClass::Quote);
            proof {
                crate::text::lemma_scan_props(s@, p + 1, CharClass::Quote);
            }
            let name = s.substring_char(p + 1, m);
            if check_name(name) && match_lit(s, m, "\"}") && n - m == 2 {
                proof {
                    reveal_strlit("\"}");
                }
                return Ok(
                    PierConfig {
                        runtime_version: version,
                        id: id.to_owned(),
                        name: Some(name.to_owned()),
                    },
                );
            }
            return Err(Error::ConfigCorrupt);
        }
        Err(Error::ConfigCorrupt)
    }
}

/// Round trip: the canonical text of any well-formed configuration parses
/// back to exactly that configuration — identifier, name and runtime
/// version are all preserved.
pub proof fn lemma_config_roundtrip(c: ConfigV)
    requires
        c.wf(),
    ensures
        parse_config_chars(config_chars(c)) == Some(c),
{
    reveal_strlit("{\"runtimeVersion\":\"");
    reveal_strlit("\",\"id\":\"");
    reveal_strlit("\",\"@p\":");
    reveal_strlit("null}");
    reveal_strlit("\"");
    reveal_strlit("\"}");
    crate::urbit::lemma_version_roundtrip(c.runtime_version);
    let s = config_chars(c);
    let ver = version_chars(c.runtime_version);
    assert(s.subrange(0, 19) =~= "{\"runtimeVersion\":\""@);
    assert(match_at(s, 0, "{\"runtimeVersion\":\""@));
    // The version text holds no quote, so the scanner stops at the quote
    // that opens the id field.
    assert(forall|m: int| 19 <= m < 23 ==> !in_class(#[trigger] s[m], CharClass::Quote));
    lemma_scan_skip(s, 19, 23, CharClass::Quote);
    assert(s[23] == '"');
    assert(scan(s, 19, CharClass::Quote) == 23);
    assert(s.subrange(19, 23) =~= ver);
    assert(s.subrange(23, 31) =~= "\",\"id\":\""@);
    assert(match_at(s, 23, "\",\"id\":\""@));
    // The identifier is hexadecimal digits and hyphens, never a quote.
    assert(forall|m: int| 31 <= m < 67 ==> !in_class(#[trigger] s[m], CharClass::Quote)) by {
        assert(forall|m: int| 31 <= m < 67 ==> s[m] == c.id[m - 31]);
        assert(forall|t: int| 0 <= t < 36 ==> #[trigger] c.id[t] != '"') by {
            assert(forall|t: int|
                0 <= t < 36 ==> (if t == 8 || t == 13 || t == 18 || t == 23 {
                    #[trigger] c.id[t] == '-'
                } else {
                    is_hex_digit(c.id[t])
                }));
        }
    }
    lemma_scan_skip(s, 31, 67, CharClass::Quote);
    assert(s[67] == '"');
    assert(scan(s, 31, CharClass::Quote) == 67);
    assert(s.subrange(31, 67) =~= c.id);
    assert(s.subrange(67, 74) =~= "\",\"@p\":"@);
    assert(match_at(s, 67, "\",\"@p\":"@));
    match c.name {
        None => {
            assert(s.subrange(74, 79) =~= "null}"@);
            assert(match_at(s, 74, "null}"@));
            assert(s.len() == 79);
            assert(parse_config_chars(s) == Some(c));
        },
        Some(n) => {
            let nl = n.len() as int;
            assert(s[74] == '"');
            // The null form cannot match here: its first character differs.
            assert(!match_at(s, 74, "null}"@)) by {
                if match_at(s, 74, "null}"@) {
                    assert(s.subrange(74, 79)[0] == 'n');
                }
            }
            // The name holds no quote, so the scanner stops at its closing
            // quote.
            assert(forall|m: int| 75 <= m < 75 + nl ==> !in_class(#[trigger] s[m], CharClass::Quote))
                by {
                assert(forall|m: int| 75 <= m < 75 + nl ==> s[m] == n[m - 75]);
            }
            lemma_scan_skip(s, 75, 75 + nl, CharClass::Quote);
            assert(s[75 + nl] == '"');
            assert(scan(s, 75, CharClass::Quote) == 75 + nl);
            assert(s.subrange(75, 75 + nl) =~= n);
            assert(s.subrange(75 + nl, 75 + nl + 2) =~= "\"}"@);
            assert(match_at(s, 75 + nl, "\"}"@));
            assert(s.len() == 75 + nl + 2);
            assert(parse_config_chars(s) == Some(c));
        },
    }
}

} // verus!
