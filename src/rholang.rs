//! Generation of Rholang contract code.
//!
//! This module holds a first, simpler builder; `contract_builder` holds the
//! one that chains channels and passes arguments.
pub mod channel;
pub mod contract_builder;

use std::rc::Rc;

use vstd::prelude::*;

verus! {

/// A channel of the simple builder, with an optional link to the next one.
#[derive(Debug)]
pub struct Channel {
    name: String,
    prev: Option<Rc<Channel>>,
    next: Option<Rc<Channel>>,
    arguments: Vec<String>,
}

impl Channel {
    pub closed spec fn name_view(&self) -> Seq<char> {
        self.name@
    }

    pub closed spec fn next_view(&self) -> Option<Rc<Channel>> {
        self.next
    }

    pub fn new(name: &str) -> (c: Self)
        ensures
            c.name_view() == name@,
            c.next_view() is None,
    {
        Channel { name: name.to_owned(), prev: None, next: None, arguments: Vec::new() }
    }

    /// Makes `next` the channel that follows this one.
    pub fn link(&mut self, next: Rc<Channel>)
        ensures
            final(self).name_view() == old(self).name_view(),
            final(self).next_view() == Some(next),
    {
        self.next = Some(next);
    }

    /// The call of this channel.
    pub fn render(&self) -> (s: String)
        ensures
            s@ == channel_text(self.name_view()),
    {
        let mut s = String::new();
        s.append(self.name.as_str());
        s.append("!(*");
        s.append(self.name.as_str());
        s.append("_result) |\nfor(){\n\n}\n");
        s
    }
}

pub open spec fn channel_text(name: Seq<char>) -> Seq<char> {
    name + "!(*"@ + name + "_result) |\nfor(){\n\n}\n"@
}

/// A contract that declares its channels and calls each of them.
#[derive(Debug)]
pub struct ContractBuilder {
    pub contract_name: String,
    pub channels: Vec<Channel>,
}

/// The names declared for channels `0..n` of `cs` where `n` is not the last:
/// each channel with its `_result` channel.
pub open spec fn declared(cs: Seq<Channel>, n: nat) -> Seq<char>
    decreases n,
{
    if n == 0 {
        Seq::empty()
    } else {
        declared(cs, (n - 1) as nat) + cs[n - 1].name_view() + ", "@ + cs[n - 1].name_view()
            + "_result, "@
    }
}

/// The calls of channels `0..n`, separated by `| `.
pub open spec fn calls(cs: Seq<Channel>, n: nat) -> Seq<char>
    decreases n,
{
    if n == 0 {
        Seq::empty()
    } else if n == 1 {
        channel_text(cs[0].name_view())
    } else {
        calls(cs, (n - 1) as nat) + "| "@ + channel_text(cs[n - 1].name_view())
    }
}

pub open spec fn contract_text(b: ContractBuilder) -> Seq<char> {
    let cs = b.channels@;
    "\ncontract "@ + b.contract_name@ + " (contract_result) = {\n  new "@ + declared(
        cs,
        (cs.len() - 1) as nat,
    ) + cs.last().name_view() + " in {\n    "@ + calls(cs, cs.len()) + "\n  }\n}"@
}

impl ContractBuilder {
    pub fn new(contract_name: &str) -> (b: Self)
        ensures
            b.contract_name@ == contract_name@,
            b.channels@.len() == 0,
    {
        ContractBuilder { contract_name: contract_name.to_owned(), channels: Vec::new() }
    }

    pub fn add_channel(&mut self, channel: Channel)
        ensures
            final(self).contract_name == old(self).contract_name,
            final(self).channels@ == old(self).channels@.push(channel),
    {
        self.channels.push(channel);
    }

    /// The contract as Rholang source text; it needs at least one channel.
    pub fn render(&self) -> (s: String)
        requires
            self.channels@.len() > 0,
        ensures
            s@ == contract_text(*self),
    {
        let mut s = String::new();
        s.append("\ncontract ");
        s.append(self.contract_name.as_str());
        s.append(" (contract_result) = {\n  new ");
        let n = self.channels.len();
        let ghost head = s@;
        let mut k: usize = 0;
        while k + 1 < n
            invariant
                n == self.channels@.len(),
                n > 0,
                k + 1 <= n,
                s@ == head + declared(self.channels@, k as nat),
            decreases n - k,
        {
            let c = self.channels[k].name.as_str();
            s.append(c);
            s.append(", ");
            s.append(c);
            s.append("_result, ");
            k = k + 1;
        }
        s.append(self.channels[n - 1].name.as_str());
        s.append(" in {\n    ");
        let ghost head2 = s@;
        let mut j: usize = 0;
        while j < n
            invariant
                n == self.channels@.len(),
                j <= n,
                s@ == head2 + calls(self.channels@, j as nat),
            decreases n - j,
        {
            let ghost before = s@;
            if j > 0 {
                s.append("| ");
            }
            let c = self.channels[j].render();
            s.append(c.as_str());
            j = j + 1;
            assert(s@ =~= head2 + calls(self.channels@, j as nat));
        }
        s.append("\n  }\n}");
        s
    }
}

} // verus!
