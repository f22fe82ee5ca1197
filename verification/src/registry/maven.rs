//! License lookup against Maven Central.

use vstd::prelude::*;

use crate::text::{chars_of, find_sub, first_match, string_of};
use crate::xmlread::{XmlEvent, xml_next_event, xml_reader_from};

verus! {

/// Replace every `.` of a Maven group id by `/`.
pub open spec fn spec_group_path(s: Seq<char>) -> Seq<char> {
    s.map_values(|c: char| if c == '.' {
        '/'
    } else {
        c
    })
}

/// Executable group path conversion.
pub fn group_path(v: &Vec<char>) -> (r: Vec<char>)
    ensures
        r@ == spec_group_path(v@),
{
    let mut r: Vec<char> = Vec::new();
    let mut i: usize = 0;
    while i < v.len()
        invariant
            i <= v@.len(),
            r@.len() == i,
            forall|j: int| 0 <= j < i ==> r@[j] == (if v@[j] == '.' {
                '/'
            } else {
                v@[j]
            }),
        decreases v@.len() - i,
    {
        if v[i] == '.' {
            r.push('/');
        } else {
            r.push(v[i]);
        }
        i = i + 1;
    }
    proof {
        assert(r@ =~= spec_group_path(v@));
    }
    r
}

/// The Maven Central POM URL for `group:artifact` coordinates, if
/// the name carries both parts.
pub open spec fn spec_pom_url(name: Seq<char>, version: Seq<char>) -> Option<Seq<char>> {
    match first_match(name, ":"@) {
        None => None,
        Some(i) => {
            let group = name.take(i as int);
            let artifact = name.skip(i as int + 1);
            Some(
                "https://repo1.maven.org/maven2/"@ + spec_group_path(group) + "/"@ + artifact
                    + "/"@ + version + "/"@ + artifact + "-"@ + version + ".pom"@,
            )
        },
    }
}

/// The Maven Central POM URL of an artifact named in
/// `groupId:artifactId` form; a name without coordinates has none.
pub fn pom_url(name: &str, version: &str) -> (r: Option<String>)
    ensures
        match r {
            Some(u) => spec_pom_url(name@, version@) == Some(u@),
            None => spec_pom_url(name@, version@) is None,
        },
{
    let v = chars_of(name);
    let colon = chars_of(":");
    proof {
        reveal_strlit(":");
    }
    let i = match find_sub(&v, &colon) {
        Some(i) => i,
        None => {
            return None;
        },
    };
    let n: usize = v.len();
    proof {
        crate::text::lemma_first_match_in_range(v@, colon@);
        assert(i + colon@.len() <= n);
    }
    let group = crate::text::copy_range(&v, 0, i);
    let artifact = crate::text::copy_range(&v, i + 1, n);
    proof {
        assert(group@ =~= v@.take(i as int));
        assert(artifact@ =~= v@.skip(i + 1));
    }
    let gp = string_of(&group_path(&group));
    let art = string_of(&artifact);
    let mut url = String::from_str("https://repo1.maven.org/maven2/");
    url.append(gp.as_str());
    url.append("/");
    url.append(art.as_str());
    url.append("/");
    url.append(version);
    url.append("/");
    url.append(art.as_str());
    url.append("-");
    url.append(version);
    url.append(".pom");
    Some(url)
}

/// The first `<license><name>` text of a POM document, if any;
/// reading never runs longer than the document itself.
pub fn extract_license_from_pom(xml: &str) -> (r: Option<String>)
{
    let mut reader = xml_reader_from(xml);
    let fuel: usize = xml.len();
    let mut steps: usize = 0;
    let mut in_licenses: bool = false;
    let mut in_license: bool = false;
    let mut in_name: bool = false;
    while steps < fuel
        invariant
            steps <= fuel,
        decreases fuel - steps,
    {
        match xml_next_event(&mut reader) {
            XmlEvent::Start(tag, _) => {
                let tagv = chars_of(tag.as_str());
                if crate::text::chars_eq_str(&tagv, "licenses") {
                    in_licenses = true;
                } else if crate::text::chars_eq_str(&tagv, "license") && in_licenses {
                    in_license = true;
                } else if crate::text::chars_eq_str(&tagv, "name") && in_license {
                    in_name = true;
                }
            },
            XmlEvent::End(tag) => {
                let tagv = chars_of(tag.as_str());
                if crate::text::chars_eq_str(&tagv, "name") {
                    in_name = false;
                } else if crate::text::chars_eq_str(&tagv, "license") {
                    in_license = false;
                } else if crate::text::chars_eq_str(&tagv, "licenses") {
                    return None;
                }
            },
            XmlEvent::Text(text) => {
                if in_name {
                    return Some(text);
                }
            },
            XmlEvent::Eof => {
                return None;
            },
            _ => {},
        }
        steps = steps + 1;
    }
    None
}

} // verus!
