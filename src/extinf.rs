//! Reading one `#EXTINF:` metadata line: `key="value"` attributes and the display label.
use vstd::prelude::*;
use vstd::string::StringExecFns;
use crate::channel::{Channel, ChannelView};
use crate::text::{
    chars_of, find_char, find_char_last, find_first, find_from, find_last,
    string_of_range, trim, trim_bounds,
};

verus! {

pub open spec fn tvg_name_key() -> Seq<char> {
    "tvg-name"@
}

pub open spec fn tvg_logo_key() -> Seq<char> {
    "tvg-logo"@
}

pub open spec fn group_title_key() -> Seq<char> {
    "group-title"@
}

pub open spec fn tvg_language_key() -> Seq<char> {
    "tvg-language"@
}

pub open spec fn tvg_country_key() -> Seq<char> {
    "tvg-country"@
}

pub open spec fn tvg_id_key() -> Seq<char> {
    "tvg-id"@
}

/// The name given to an entry whose label cannot be recovered from its line.
pub open spec fn placeholder_name() -> Seq<char> {
    "Unknown Channel"@
}

pub open spec fn opt_view(o: Option<String>) -> Option<Seq<char>> {
    match o {
        Some(s) => Some(s@),
        None => None,
    }
}

/// `key="` starts at position `p` of `line`.
pub open spec fn attr_opens_at(line: Seq<char>, key: Seq<char>, p: int) -> bool {
    &&& 0 <= p
    &&& p + key.len() + 2 <= line.len()
    &&& line.subrange(p, p + key.len()) == key
    &&& line[p + key.len()] == '='
    &&& line[p + key.len() + 1] == '"'
}

/// `key="value"` starts at position `p`: the opening is followed, somewhere, by a closing quote.
pub open spec fn attr_matches_at(line: Seq<char>, key: Seq<char>, p: int) -> bool {
    attr_opens_at(line, key, p) && find_from(line, '"', p + key.len() + 2) is Some
}

/// The leftmost position at or after `p` where `key="value"` starts.
pub open spec fn attr_pos_from(line: Seq<char>, key: Seq<char>, p: int) -> Option<int>
    decreases line.len() - p,
{
    if p < 0 || p >= line.len() {
        None
    } else if attr_matches_at(line, key, p) {
        Some(p)
    } else {
        attr_pos_from(line, key, p + 1)
    }
}

/// The value of the leftmost `key="value"` in `line`: the text up to the next quote.
pub open spec fn attribute_value(line: Seq<char>, key: Seq<char>) -> Option<Seq<char>> {
    match attr_pos_from(line, key, 0) {
        Some(p) => {
            let start = p + key.len() + 2;
            match find_from(line, '"', start) {
                Some(q) => Some(line.subrange(start, q)),
                None => None,
            }
        },
        None => None,
    }
}

fn attr_opens(line: &Vec<char>, key: &Vec<char>, p: usize) -> (r: bool)
    ensures
        r == attr_opens_at(line@, key@, p as int),
{
    if p > line.len() || key.len() > line.len() - p || line.len() - p - key.len() < 2 {
        return false;
    }
    let mut k: usize = 0;
    while k < key.len()
        invariant
            p + key.len() + 2 <= line.len(),
            k <= key.len(),
            forall|m: int| 0 <= m < k ==> line@[p + m] == key@[m],
        decreases key.len() - k,
    {
        if line[p + k] != key[k] {
            proof {
                assert(line@.subrange(p as int, p + key.len())[k as int] == line@[p + k]);
            }
            return false;
        }
        k = k + 1;
    }
    proof {
        assert(line@.subrange(p as int, p + key.len()) =~= key@);
    }
    line[p + key.len()] == '=' && line[p + key.len() + 1] == '"'
}

/// The value of the leftmost `key="value"` in `line`.
pub fn attribute_in(line: &Vec<char>, key: &Vec<char>) -> (r: Option<String>)
    ensures
        opt_view(r) == attribute_value(line@, key@),
{
    let mut p: usize = 0;
    while p < line.len()
        invariant
            attr_pos_from(line@, key@, 0) == attr_pos_from(line@, key@, p as int),
        decreases line.len() - p,
    {
        if attr_opens(line, key, p) {
            let start = p + key.len() + 2;
            match find_char(line, '"', start) {
                Some(q) => {
                    return Some(string_of_range(line, start, q));
                },
                None => {},
            }
        }
        p = p + 1;
    }
    None
}

/// The value of the leftmost `attr_name="value"` in `line`.
pub fn extract_attribute(line: &str, attr_name: &str) -> (r: Option<String>)
    ensures
        opt_view(r) == attribute_value(line@, attr_name@),
{
    let l = chars_of(line);
    let k = chars_of(attr_name);
    attribute_in(&l, &k)
}


/// Some attribute that an entry reads is present on the line.
pub open spec fn has_attributes(line: Seq<char>) -> bool {
    ||| attribute_value(line, tvg_name_key()) is Some
    ||| attribute_value(line, tvg_logo_key()) is Some
    ||| attribute_value(line, group_title_key()) is Some
    ||| attribute_value(line, tvg_language_key()) is Some
    ||| attribute_value(line, tvg_country_key()) is Some
    ||| attribute_value(line, tvg_id_key()) is Some
}

/// The label of a metadata line: after the last comma when the line carries attributes,
/// after the first comma when it carries none; the placeholder when there is no comma.
pub open spec fn entry_label(line: Seq<char>) -> Seq<char> {
    let comma = if has_attributes(line) {
        find_last(line, ',')
    } else {
        find_first(line, ',')
    };
    match comma {
        Some(k) => trim(line.subrange(k + 1, line.len() as int)),
        None => placeholder_name(),
    }
}

/// The name of an entry: a non-empty `tvg-name` attribute, else the label.
pub open spec fn entry_name(line: Seq<char>) -> Seq<char> {
    match attribute_value(line, tvg_name_key()) {
        Some(n) => if n.len() > 0 {
            n
        } else {
            entry_label(line)
        },
        None => entry_label(line),
    }
}

/// The channel that a metadata line and its stream line describe.
pub open spec fn entry_of(meta: Seq<char>, url_line: Seq<char>) -> ChannelView {
    ChannelView {
        name: entry_name(meta),
        url: trim(url_line),
        group: attribute_value(meta, group_title_key()),
        logo: attribute_value(meta, tvg_logo_key()),
        language: attribute_value(meta, tvg_language_key()),
        country: attribute_value(meta, tvg_country_key()),
        tvg_id: attribute_value(meta, tvg_id_key()),
    }
}

/// The name of the entry that `meta` opens, given its `tvg-name` and whether it carries
/// attributes.
fn entry_name_in(meta: &Vec<char>, tvg_name: &Option<String>, attributed: bool) -> (r: String)
    requires
        opt_view(*tvg_name) == attribute_value(meta@, tvg_name_key()),
        attributed == has_attributes(meta@),
    ensures
        r@ == entry_name(meta@),
{
    let comma = if attributed {
        find_char_last(meta, ',')
    } else {
        find_char(meta, ',', 0)
    };
    let label = match comma {
        Some(k) => {
            let (a, b) = trim_bounds(meta, k + 1, meta.len());
            string_of_range(meta, a, b)
        },
        None => String::from_str("Unknown Channel"),
    };
    match tvg_name {
        Some(n) => if n.as_str().is_empty() {
            label
        } else {
            n.clone()
        },
        None => label,
    }
}

/// The channel that a metadata line and its stream line describe.
pub fn entry_channel(meta: &Vec<char>, url_line: &Vec<char>) -> (r: Channel)
    ensures
        r@ == entry_of(meta@, url_line@),
{
    let tvg_name = attribute_in(meta, &chars_of("tvg-name"));
    let logo = attribute_in(meta, &chars_of("tvg-logo"));
    let group = attribute_in(meta, &chars_of("group-title"));
    let language = attribute_in(meta, &chars_of("tvg-language"));
    let country = attribute_in(meta, &chars_of("tvg-country"));
    let tvg_id = attribute_in(meta, &chars_of("tvg-id"));
    let attributed = tvg_name.is_some() || logo.is_some() || group.is_some() || language.is_some()
        || country.is_some() || tvg_id.is_some();
    let name = entry_name_in(meta, &tvg_name, attributed);
    let (ua, ub) = trim_bounds(url_line, 0, url_line.len());
    proof {
        assert(url_line@.subrange(0, url_line@.len() as int) =~= url_line@);
    }
    let url = string_of_range(url_line, ua, ub);
    Channel { name, url, group, logo, language, country, tvg_id }
}

/// What a metadata line carries, read as a whole.
#[derive(Debug, Default)]
pub struct ExtinfMetadata {
    pub channel_name: String,
    pub tvg_name: Option<String>,
    pub tvg_logo: Option<String>,
    pub group_title: Option<String>,
    pub tvg_language: Option<String>,
    pub tvg_country: Option<String>,
    pub tvg_id: Option<String>,
}

/// Reads the attributes and the name of a metadata line. A line with a comma is named as an
/// entry it opens is named; a line without one yields an empty name and no attributes.
pub fn parse_extinf_metadata(extinf_line: &str) -> (r: ExtinfMetadata)
    ensures
        match find_first(extinf_line@, ',') {
            Some(k) => {
                &&& r.channel_name@ == entry_name(extinf_line@)
                &&& opt_view(r.tvg_name) == attribute_value(extinf_line@, tvg_name_key())
                &&& opt_view(r.tvg_logo) == attribute_value(extinf_line@, tvg_logo_key())
                &&& opt_view(r.group_title) == attribute_value(extinf_line@, group_title_key())
                &&& opt_view(r.tvg_language) == attribute_value(extinf_line@, tvg_language_key())
                &&& opt_view(r.tvg_country) == attribute_value(extinf_line@, tvg_country_key())
                &&& opt_view(r.tvg_id) == attribute_value(extinf_line@, tvg_id_key())
            },
            None => {
                &&& r.channel_name@.len() == 0
                &&& r.tvg_name is None
                &&& r.tvg_logo is None
                &&& r.group_title is None
                &&& r.tvg_language is None
                &&& r.tvg_country is None
                &&& r.tvg_id is None
            },
        },
{
    let line = chars_of(extinf_line);
    match find_char(&line, ',', 0) {
        None => ExtinfMetadata {
            channel_name: String::new(),
            tvg_name: None,
            tvg_logo: None,
            group_title: None,
            tvg_language: None,
            tvg_country: None,
            tvg_id: None,
        },
        Some(_) => {
            let tvg_name = attribute_in(&line, &chars_of("tvg-name"));
            let tvg_logo = attribute_in(&line, &chars_of("tvg-logo"));
            let group_title = attribute_in(&line, &chars_of("group-title"));
            let tvg_language = attribute_in(&line, &chars_of("tvg-language"));
            let tvg_country = attribute_in(&line, &chars_of("tvg-country"));
            let tvg_id = attribute_in(&line, &chars_of("tvg-id"));
            let attributed = tvg_name.is_some() || tvg_logo.is_some() || group_title.is_some()
                || tvg_language.is_some() || tvg_country.is_some() || tvg_id.is_some();
            let channel_name = entry_name_in(&line, &tvg_name, attributed);
            ExtinfMetadata {
                channel_name,
                tvg_name,
                tvg_logo,
                group_title,
                tvg_language,
                tvg_country,
                tvg_id,
            }
        },
    }
}

} // verus!
