//! The entries that the channel picker shows, and reading back what was picked. Drawing the
//! picker is left to the caller.
use vstd::prelude::*;
use vstd::string::StringExecFns;
use crate::channel::{Channel, display_text};
use crate::config::Config;

verus! {

/// A channel with the line the picker shows for it.
#[derive(Clone, Debug)]
pub struct ChannelItem {
    pub channel: Channel,
    pub display_text: String,
}

impl ChannelItem {
    pub fn text(&self) -> (r: &str)
        ensures
            r@ == self.display_text@,
    {
        self.display_text.as_str()
    }
}

/// The picker's lines joined by newlines.
pub open spec fn join_lines(lines: Seq<Seq<char>>) -> Seq<char>
    decreases lines.len(),
{
    if lines.len() == 0 {
        seq![]
    } else if lines.len() == 1 {
        lines[0]
    } else {
        join_lines(lines.drop_last()) + "\n"@ + lines.last()
    }
}

pub open spec fn item_texts(items: Seq<ChannelItem>) -> Seq<Seq<char>> {
    items.map_values(|i: ChannelItem| i.display_text@)
}

pub struct ChannelSelector {
    channels: Vec<ChannelItem>,
    config: Config,
}

impl ChannelSelector {
    /// The picker's entries, in order.
    pub closed spec fn items(&self) -> Seq<ChannelItem> {
        self.channels@
    }

    /// One entry per channel, in order, each shown as the channel's display name.
    pub fn new(channels: Vec<Channel>, config: &Config) -> (r: ChannelSelector)
        ensures
            r.items().len() == channels.len(),
            forall|k: int|
                0 <= k < channels.len() ==> (#[trigger] r.items()[k]).channel@ == channels@[k]@
                    && r.items()[k].display_text@ == display_text(channels@[k]@),
    {
        let mut items: Vec<ChannelItem> = Vec::new();
        let mut i: usize = 0;
        while i < channels.len()
            invariant
                i <= channels.len(),
                items.len() == i,
                forall|k: int|
                    0 <= k < i ==> (#[trigger] items@[k]).channel@ == channels@[k]@
                        && items@[k].display_text@ == display_text(channels@[k]@),
            decreases channels.len() - i,
        {
            let channel = channels[i].duplicate();
            let display_text = channel.display_name();
            items.push(ChannelItem { channel, display_text });
            i = i + 1;
        }
        ChannelSelector { channels: items, config: config.clone() }
    }

    pub fn entries(&self) -> (r: &[ChannelItem])
        ensures
            r@ == self.items(),
    {
        self.channels.as_slice()
    }

    pub fn config(&self) -> &Config {
        &self.config
    }

    /// The text handed to the picker: one entry per line.
    pub fn selection_input(&self) -> (r: String)
        ensures
            r@ == join_lines(item_texts(self.items())),
    {
        let mut r = String::new();
        let mut i: usize = 0;
        while i < self.channels.len()
            invariant
                i <= self.channels.len(),
                r@ == join_lines(item_texts(self.channels@.subrange(0, i as int))),
            decreases self.channels.len() - i,
        {
            if i > 0 {
                r.append("\n");
            }
            r.append(self.channels[i].display_text.as_str());
            i = i + 1;
            proof {
                let now = item_texts(self.channels@.subrange(0, i as int));
                assert(now.drop_last() =~= item_texts(self.channels@.subrange(0, i - 1)));
                if i == 1 {
                    assert(now =~= seq![self.channels@[0].display_text@]);
                }
            }
        }
        proof {
            assert(self.channels@.subrange(0, self.channels.len() as int) =~= self.channels@);
        }
        r
    }

    /// The channel of the first entry shown as `selected`, if any.
    pub fn find_selected(&self, selected: &str) -> (r: Option<Channel>)
        ensures
            match r {
                Some(c) => exists|k: int|
                    0 <= k < self.items().len() && #[trigger] self.items()[k].display_text@
                        == selected@ && c@ == self.items()[k].channel@ && forall|m: int|
                        0 <= m < k ==> self.items()[m].display_text@ != selected@,
                None => forall|k: int|
                    0 <= k < self.items().len() ==> #[trigger] self.items()[k].display_text@
                        != selected@,
            },
    {
        let key = String::from_str(selected);
        let mut i: usize = 0;
        while i < self.channels.len()
            invariant
                i <= self.channels.len(),
                key@ == selected@,
                forall|m: int| 0 <= m < i ==> self.channels@[m].display_text@ != selected@,
            decreases self.channels.len() - i,
        {
            if self.channels[i].display_text == key {
                return Some(self.channels[i].channel.duplicate());
            }
            i = i + 1;
        }
        None
    }
}

} // verus!
