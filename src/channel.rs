//! One playlist entry.
use vstd::prelude::*;
use vstd::string::StringExecFns;
use crate::extinf::opt_view;

verus! {

/// One playlist entry: a stream address with its label and optional metadata.
#[derive(Clone, Debug, PartialEq, Eq)]
pub struct Channel {
    pub name: String,
    pub url: String,
    pub group: Option<String>,
    pub logo: Option<String>,
    pub language: Option<String>,
    pub country: Option<String>,
    pub tvg_id: Option<String>,
}

/// What a `Channel` holds, as character sequences.
pub struct ChannelView {
    pub name: Seq<char>,
    pub url: Seq<char>,
    pub group: Option<Seq<char>>,
    pub logo: Option<Seq<char>>,
    pub language: Option<Seq<char>>,
    pub country: Option<Seq<char>>,
    pub tvg_id: Option<Seq<char>>,
}

impl View for Channel {
    type V = ChannelView;

    open spec fn view(&self) -> ChannelView {
        ChannelView {
            name: self.name@,
            url: self.url@,
            group: opt_view(self.group),
            logo: opt_view(self.logo),
            language: opt_view(self.language),
            country: opt_view(self.country),
            tvg_id: opt_view(self.tvg_id),
        }
    }
}

/// The views of a sequence of channels.
pub open spec fn channels_view(cs: Seq<Channel>) -> Seq<ChannelView> {
    cs.map_values(|c: Channel| c@)
}

/// The text shown for a channel: its group in brackets, when it has one, then its name.
pub open spec fn display_text(c: ChannelView) -> Seq<char> {
    match c.group {
        Some(g) => "["@ + g + "] "@ + c.name,
        None => c.name,
    }
}

pub fn copy_opt(o: &Option<String>) -> (r: Option<String>)
    ensures
        opt_view(r) == opt_view(*o),
{
    match o {
        Some(s) => Some(s.clone()),
        None => None,
    }
}

impl Channel {
    pub fn new(name: String, url: String) -> (r: Channel)
        ensures
            r@ == (ChannelView {
                name: name@,
                url: url@,
                group: None,
                logo: None,
                language: None,
                country: None,
                tvg_id: None,
            }),
    {
        Channel { name, url, group: None, logo: None, language: None, country: None, tvg_id: None }
    }

    pub fn with_metadata(
        name: String,
        url: String,
        group: Option<String>,
        logo: Option<String>,
        language: Option<String>,
        country: Option<String>,
        tvg_id: Option<String>,
    ) -> (r: Channel)
        ensures
            r@ == (ChannelView {
                name: name@,
                url: url@,
                group: opt_view(group),
                logo: opt_view(logo),
                language: opt_view(language),
                country: opt_view(country),
                tvg_id: opt_view(tvg_id),
            }),
    {
        Channel { name, url, group, logo, language, country, tvg_id }
    }

    /// The group in brackets, when there is one, before the name.
    pub fn display_name(&self) -> (r: String)
        ensures
            r@ == display_text(self@),
    {
        match &self.group {
            Some(g) => {
                let mut s = String::from_str("[");
                s.append(g.as_str());
                s.append("] ");
                s.append(self.name.as_str());
                s
            },
            None => self.name.clone(),
        }
    }

    /// A field-by-field copy.
    pub fn duplicate(&self) -> (r: Channel)
        ensures
            r@ == self@,
    {
        Channel {
            name: self.name.clone(),
            url: self.url.clone(),
            group: copy_opt(&self.group),
            logo: copy_opt(&self.logo),
            language: copy_opt(&self.language),
            country: copy_opt(&self.country),
            tvg_id: copy_opt(&self.tvg_id),
        }
    }
}

} // verus!
