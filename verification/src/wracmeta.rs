//! A light reader of the `[package.metadata.wrac]` table of a plugin's
//! `Cargo.toml`: only `key = "value"` lines with basic strings, which is all
//! the table holds.
use vstd::prelude::*;
use crate::manifest::{four_ascii_error, validate_four_ascii};
use crate::text::{
    cat, chars_eq, chars_of, ends_with, find_pattern, has_prefix, has_suffix, lines, owned, push_str,
    replace_all, replaced, split_lines, split_once, starts_with, string_of, trim, trimmed, views,
};

verus! {

/// The value of a TOML basic string `"..."`: the text between the quotes,
/// with `\"` and then `\\` unescaped.
pub open spec fn basic_string_value(v: Seq<char>) -> Option<Seq<char>> {
    if v.len() >= 2 && v[0] == '"' && v.last() == '"' {
        Some(replaced(replaced(v.subrange(1, v.len() - 1), "\\\""@, "\""@), "\\\\"@, "\\"@))
    } else {
        None
    }
}

/// Reads a TOML basic string literal.
pub fn parse_toml_basic_string(value: &str) -> (r: Option<String>)
    ensures
        match basic_string_value(value@) {
            Some(v) => r matches Some(s) && s@ == v,
            None => r is None,
        },
{
    let cs = chars_of(value);
    let n = cs.len();
    if n < 2 || cs[0] != '"' || cs[n - 1] != '"' {
        return None;
    }
    let inner = string_of(&cs, 1, n - 1);
    proof {
        reveal_strlit("\\\"");
        reveal_strlit("\\\\");
    }
    let once = replace_all(inner.as_str(), "\\\"", "\"");
    Some(replace_all(once.as_str(), "\\\\", "\\"))
}

/// The header line of a table.
pub open spec fn section_header(section: Seq<char>) -> Seq<char> {
    "["@ + section + "]"@
}

/// The string set for `key` in table `section`, reading the lines from the
/// front: a header line switches tables, and the first `key = ...` line of
/// the table decides (a value that is not a basic string gives nothing).
pub open spec fn toml_string_from(
    ls: Seq<Seq<char>>,
    section: Seq<char>,
    key: Seq<char>,
    in_section: bool,
) -> Option<Seq<char>>
    decreases ls.len(),
{
    if ls.len() == 0 {
        None
    } else {
        let l = trim(ls[0]);
        if has_prefix(l, "["@) && has_suffix(l, "]"@) {
            toml_string_from(ls.drop_first(), section, key, l == section_header(section))
        } else if !in_section {
            toml_string_from(ls.drop_first(), section, key, in_section)
        } else {
            match split_once(l, "="@) {
                Some((k, v)) => if trim(k) == key {
                    basic_string_value(trim(v))
                } else {
                    toml_string_from(ls.drop_first(), section, key, in_section)
                },
                None => toml_string_from(ls.drop_first(), section, key, in_section),
            }
        }
    }
}

/// The string set for `key` in table `section` of a manifest text.
pub open spec fn toml_string(manifest: Seq<char>, section: Seq<char>, key: Seq<char>) -> Option<
    Seq<char>,
> {
    toml_string_from(lines(manifest), section, key, false)
}

/// What one trimmed line says: `Err(true/false)` for a table header (and
/// whether it opens `section`), `Ok(Some(..))` for an assignment to `key`,
/// `Ok(None)` otherwise.
fn classify_line(
    l: &Vec<char>,
    header: &Vec<char>,
    key: &Vec<char>,
    eq: &Vec<char>,
) -> (r: Result<Option<Vec<char>>, bool>)
    requires
        eq@ == "="@,
    ensures
        has_prefix(l@, "["@) && has_suffix(l@, "]"@) ==> r == Err::<Option<Vec<char>>, bool>(
            l@ == header@,
        ),
        !(has_prefix(l@, "["@) && has_suffix(l@, "]"@)) ==> match split_once(l@, "="@) {
            Some((k, v)) => if trim(k) == key@ {
                r matches Ok(Some(x)) && x@ == trim(v)
            } else {
                r matches Ok(None)
            },
            None => r matches Ok(None),
        },
{
    proof {
        reveal_strlit("=");
    }
    if starts_with(l, "[") && ends_with(l, "]") {
        return Err(chars_eq(l, header));
    }
    match find_pattern(l, 0, eq) {
        Some(i) => {
            proof {
                assert(l@.subrange(0, i as int) =~= l@.take(i as int));
                assert(l@.subrange(i + 1, l@.len() as int) =~= l@.skip(i + 1));
            }
            let k = trimmed(l, 0, i);
            if chars_eq(&k, key) {
                Ok(Some(trimmed(l, i + 1, l.len())))
            } else {
                Ok(None)
            }
        },
        None => Ok(None),
    }
}

/// Reads `key = "value"` from table `section` of a manifest text.
pub fn read_toml_string(manifest: &str, section: &str, key: &str) -> (r: Option<String>)
    ensures
        match toml_string(manifest@, section@, key@) {
            Some(v) => r matches Some(s) && s@ == v,
            None => r is None,
        },
{
    let chars = chars_of(manifest);
    let ls = split_lines(&chars);
    let mut header = owned("[");
    push_str(&mut header, section);
    push_str(&mut header, "]");
    let header_chars = chars_of(header.as_str());
    let key_chars = chars_of(key);
    let eq = chars_of("=");
    proof {
        reveal_strlit("=");
        reveal_strlit("[");
        reveal_strlit("]");
    }
    let mut in_section = false;
    let mut i: usize = 0;
    assert(views(ls@).skip(0) =~= views(ls@));
    while i < ls.len()
        invariant
            views(ls@) == lines(manifest@),
            i <= ls.len(),
            header_chars@ == section_header(section@),
            key_chars@ == key@,
            eq@ == "="@,
            toml_string(manifest@, section@, key@) == toml_string_from(
                views(ls@).skip(i as int),
                section@,
                key@,
                in_section,
            ),
        decreases ls.len() - i,
    {
        let ghost rest = views(ls@).skip(i as int);
        assert(rest.drop_first() =~= views(ls@).skip(i + 1));
        assert(rest[0] == ls@[i as int]@);
        let l = trimmed(&ls[i], 0, ls[i].len());
        assert(ls@[i as int]@.subrange(0, ls@[i as int]@.len() as int) =~= ls@[i as int]@);
        match classify_line(&l, &header_chars, &key_chars, &eq) {
            Err(opens) => {
                in_section = opens;
            },
            Ok(found) => {
                if in_section {
                    match found {
                        Some(v) => {
                            let value = string_of(&v, 0, v.len());
                            assert(v@.subrange(0, v@.len() as int) =~= v@);
                            return parse_toml_basic_string(value.as_str());
                        },
                        None => {},
                    }
                }
            },
        }
        i += 1;
    }
    assert(views(ls@).skip(i as int) =~= Seq::<Seq<char>>::empty());
    None
}

/// The table the plugin metadata lives in.
pub open spec fn wrac_section() -> Seq<char> {
    "package.metadata.wrac"@
}

/// The error for a key the table lacks.
pub open spec fn missing_key_message(key: Seq<char>) -> Seq<char> {
    "missing package.metadata.wrac."@ + key + " in src-plugin/Cargo.toml"@
}

/// Reads a key of `[package.metadata.wrac]` that must be there.
pub fn required_toml_string(manifest: &str, key: &str) -> (r: Result<String, String>)
    ensures
        match toml_string(manifest@, wrac_section(), key@) {
            Some(v) => r matches Ok(s) && s@ == v,
            None => r matches Err(e) && e@ == missing_key_message(key@),
        },
{
    match read_toml_string(manifest, "package.metadata.wrac", key) {
        Some(v) => Ok(v),
        None => {
            let mut e = owned("missing package.metadata.wrac.");
            push_str(&mut e, key);
            push_str(&mut e, " in src-plugin/Cargo.toml");
            Err(e)
        },
    }
}

/// The plugin identity a plugin's `Cargo.toml` declares for the build
/// tools.
#[derive(Debug, Clone)]
pub struct WracPackageMetadata {
    pub plugin_id: String,
    pub plugin_name: String,
    pub company_name: String,
    pub auv2_type: String,
    pub auv2_subtype: String,
    pub auv2_manufacturer_code: String,
    pub standalone_name: String,
}

/// The value of key `k` of the table.
pub open spec fn wrac_value(m: Seq<char>, k: Seq<char>) -> Option<Seq<char>> {
    toml_string(m, wrac_section(), k)
}

/// The keys the table must hold, in the order they are read.
pub open spec fn wrac_keys() -> Seq<Seq<char>> {
    seq![
        "plugin_id"@,
        "plugin_name"@,
        "company_name"@,
        "auv2_type"@,
        "auv2_subtype"@,
        "auv2_manufacturer_code"@,
        "standalone_name"@,
    ]
}

/// The first key of `ks` that the table lacks, as an error.
pub open spec fn first_missing(m: Seq<char>, ks: Seq<Seq<char>>) -> Option<Seq<char>>
    decreases ks.len(),
{
    if ks.len() == 0 {
        None
    } else if wrac_value(m, ks[0]) is None {
        Some(missing_key_message(ks[0]))
    } else {
        first_missing(m, ks.drop_first())
    }
}

/// The error for a code that is not four ASCII bytes.
pub open spec fn code_error(m: Seq<char>, k: Seq<char>) -> Option<Seq<char>> {
    four_ascii_error("package.metadata.wrac."@ + k, wrac_value(m, k)->0)
}

/// The first error of a manifest: a missing key, else a code that is not
/// four ASCII bytes, in the order the keys are read.
pub open spec fn wrac_metadata_error(m: Seq<char>) -> Option<Seq<char>> {
    if first_missing(m, wrac_keys()) is Some {
        first_missing(m, wrac_keys())
    } else if code_error(m, "auv2_type"@) is Some {
        code_error(m, "auv2_type"@)
    } else if code_error(m, "auv2_subtype"@) is Some {
        code_error(m, "auv2_subtype"@)
    } else {
        code_error(m, "auv2_manufacturer_code"@)
    }
}

impl WracPackageMetadata {
    /// Reads and validates the table from the text of a `Cargo.toml`.
    pub fn from_manifest(manifest: &str) -> (r: Result<Self, String>)
        ensures
            r is Ok <==> wrac_metadata_error(manifest@) is None,
            r matches Err(e) ==> e@ == wrac_metadata_error(manifest@)->0,
            r matches Ok(md) ==> {
                &&& Some(md.plugin_id@) == wrac_value(manifest@, "plugin_id"@)
                &&& Some(md.plugin_name@) == wrac_value(manifest@, "plugin_name"@)
                &&& Some(md.company_name@) == wrac_value(manifest@, "company_name"@)
                &&& Some(md.auv2_type@) == wrac_value(manifest@, "auv2_type"@)
                &&& Some(md.auv2_subtype@) == wrac_value(manifest@, "auv2_subtype"@)
                &&& Some(md.auv2_manufacturer_code@) == wrac_value(manifest@, "auv2_manufacturer_code"@)
                &&& Some(md.standalone_name@) == wrac_value(manifest@, "standalone_name"@)
            },
    {
        proof {
            reveal_with_fuel(first_missing, 8);
        }
        let plugin_id = required_toml_string(manifest, "plugin_id")?;
        let plugin_name = required_toml_string(manifest, "plugin_name")?;
        let company_name = required_toml_string(manifest, "company_name")?;
        let auv2_type = required_toml_string(manifest, "auv2_type")?;
        let auv2_subtype = required_toml_string(manifest, "auv2_subtype")?;
        let auv2_manufacturer_code = required_toml_string(manifest, "auv2_manufacturer_code")?;
        let standalone_name = required_toml_string(manifest, "standalone_name")?;
        let metadata = WracPackageMetadata {
            plugin_id,
            plugin_name,
            company_name,
            auv2_type,
            auv2_subtype,
            auv2_manufacturer_code,
            standalone_name,
        };
        proof {
            reveal_strlit("package.metadata.wrac.");
            reveal_strlit("auv2_type");
            reveal_strlit("auv2_subtype");
            reveal_strlit("auv2_manufacturer_code");
            reveal_strlit("package.metadata.wrac.auv2_type");
            reveal_strlit("package.metadata.wrac.auv2_subtype");
            reveal_strlit("package.metadata.wrac.auv2_manufacturer_code");
            assert("package.metadata.wrac.auv2_type"@ =~= "package.metadata.wrac."@ + "auv2_type"@);
            assert("package.metadata.wrac.auv2_subtype"@ =~= "package.metadata.wrac."@ + "auv2_subtype"@);
            assert("package.metadata.wrac.auv2_manufacturer_code"@ =~= "package.metadata.wrac."@
                + "auv2_manufacturer_code"@);
        }
        match metadata.validate() {
            Ok(()) => Ok(metadata),
            Err(e) => Err(e),
        }
    }

    /// The three AUv2 codes must each be four ASCII bytes.
    fn validate(&self) -> (r: Result<(), String>)
        ensures
            ({
                let e1 = four_ascii_error("package.metadata.wrac.auv2_type"@, self.auv2_type@);
                let e2 = four_ascii_error("package.metadata.wrac.auv2_subtype"@, self.auv2_subtype@);
                let e3 = four_ascii_error(
                    "package.metadata.wrac.auv2_manufacturer_code"@,
                    self.auv2_manufacturer_code@,
                );
                &&& r is Ok <==> e1 is None && e2 is None && e3 is None
                &&& r matches Err(e) ==> e@ == (if e1 is Some {
                    e1->0
                } else if e2 is Some {
                    e2->0
                } else {
                    e3->0
                })
            }),
    {
        validate_four_ascii("package.metadata.wrac.auv2_type", self.auv2_type.as_str())?;
        validate_four_ascii("package.metadata.wrac.auv2_subtype", self.auv2_subtype.as_str())?;
        validate_four_ascii(
            "package.metadata.wrac.auv2_manufacturer_code",
            self.auv2_manufacturer_code.as_str(),
        )?;
        Ok(())
    }

    /// `<plugin name>.clap`.
    pub fn clap_bundle_name(&self) -> (r: String)
        ensures
            r@ == self.plugin_name@ + ".clap"@,
    {
        cat(self.plugin_name.as_str(), ".clap")
    }

    /// `<plugin name>.vst3`.
    pub fn vst3_bundle_name(&self) -> (r: String)
        ensures
            r@ == self.plugin_name@ + ".vst3"@,
    {
        cat(self.plugin_name.as_str(), ".vst3")
    }

    /// `<plugin name>.component`.
    pub fn au_bundle_name(&self) -> (r: String)
        ensures
            r@ == self.plugin_name@ + ".component"@,
    {
        cat(self.plugin_name.as_str(), ".component")
    }
}

} // verus!
