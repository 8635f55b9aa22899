//! Generates a Rholang contract that chains a sequence of channels: each
//! channel gets the result of the one before it, the first one gets the
//! contract's arguments, and the last one's result is the contract's result.
use vstd::prelude::*;

use super::channel::Channel;

verus! {

#[derive(Debug, Default)]
pub struct ContractBuilder {
    pub contract_name: String,
    /// The channels, in the order they are chained.
    pub channels: Vec<Channel>,
    /// The contract's arguments, handed to the first channel.
    pub arguments: Vec<String>,
}

/// `f(0) + f(1) + ... + f(n - 1)`.
pub open spec fn concat_map(n: nat, f: spec_fn(int) -> Seq<char>) -> Seq<char>
    decreases n,
{
    if n == 0 {
        Seq::empty()
    } else {
        concat_map((n - 1) as nat, f) + f(n - 1)
    }
}

/// The parts joined with `sep` between them.
pub open spec fn join(parts: Seq<Seq<char>>, sep: Seq<char>) -> Seq<char> {
    concat_map(
        parts.len(),
        |i: int|
            if i == 0 {
                parts[0]
            } else {
                sep + parts[i]
            },
    )
}

pub open spec fn channel_names(b: ContractBuilder) -> Seq<Seq<char>> {
    b.channels@.map_values(|c: Channel| c.name@)
}

pub open spec fn argument_names(b: ContractBuilder) -> Seq<Seq<char>> {
    b.arguments@.map_values(|a: String| a@)
}

/// The parameter list: the arguments, then `contract_result`.
pub open spec fn parameters(b: ContractBuilder) -> Seq<char> {
    join(argument_names(b).push("contract_result"@), ", "@)
}

pub open spec fn new_clause(c: Seq<char>) -> Seq<char> {
    "new "@ + c + ", "@ + c + "_result in { "@
}

/// The call of channel `i`, and the start of the block that receives its result.
pub open spec fn call_clause(cs: Seq<Seq<char>>, args: Seq<Seq<char>>, i: int) -> Seq<char> {
    if i == 0 {
        cs[0] + "!("@ + (if args.len() > 0 {
            "*"@ + join(args, ","@) + ", "@
        } else {
            Seq::empty()
        }) + "*"@ + cs[0] + "_result) | for ("@ + cs[0] + "_result_value <- "@ + cs[0]
            + "_result) { "@
    } else {
        cs[i] + "!(*"@ + cs[i - 1] + "_result_value, *"@ + cs[i] + "_result) | for ("@ + cs[i]
            + "_result_value <- "@ + cs[i] + "_result) { "@
    }
}

pub open spec fn new_clauses(cs: Seq<Seq<char>>, n: nat) -> Seq<char>
    decreases n,
{
    if n == 0 {
        Seq::empty()
    } else {
        new_clauses(cs, (n - 1) as nat) + new_clause(cs[n - 1])
    }
}

pub open spec fn call_clauses(cs: Seq<Seq<char>>, args: Seq<Seq<char>>, n: nat) -> Seq<char>
    decreases n,
{
    if n == 0 {
        Seq::empty()
    } else {
        call_clauses(cs, args, (n - 1) as nat) + call_clause(cs, args, n - 1)
    }
}

/// Two closing braces for each channel: its `new` block and its `for` block.
pub open spec fn closing(n: nat) -> Seq<char>
    decreases n,
{
    if n == 0 {
        Seq::empty()
    } else {
        closing((n - 1) as nat) + " } }"@
    }
}

/// The text `render_rholang` produces.
pub open spec fn rholang_text(b: ContractBuilder) -> Seq<char> {
    let cs = channel_names(b);
    let args = argument_names(b);
    if cs.len() == 0 {
        "contract "@ + b.contract_name@ + " ("@ + parameters(b) + ") = { contract_result!(Nil) }"@
    } else {
        "contract "@ + b.contract_name@ + " ("@ + parameters(b) + ") = { "@ + new_clauses(
            cs,
            cs.len(),
        ) + call_clauses(cs, args, cs.len()) + "contract_result!(*"@ + cs.last()
            + "_result_value)"@ + closing(cs.len()) + " }"@
    }
}

proof fn lemma_concat_map_step(n: nat, f: spec_fn(int) -> Seq<char>)
    ensures
        concat_map(n + 1, f) == concat_map(n, f) + f(n as int),
{
}

/// Appends the parts joined with `sep`.
fn append_joined(out: &mut String, parts: &Vec<String>, sep: &str)
    ensures
        final(out)@ == old(out)@ + join(parts@.map_values(|a: String| a@), sep@),
{
    let ghost start = out@;
    let ghost ps = parts@.map_values(|a: String| a@);
    let ghost f = |i: int|
        if i == 0 {
            ps[0]
        } else {
            sep@ + ps[i]
        };
    let mut k: usize = 0;
    while k < parts.len()
        invariant
            k <= parts@.len(),
            ps == parts@.map_values(|a: String| a@),
            f == (|i: int|
                if i == 0 {
                    ps[0]
                } else {
                    sep@ + ps[i]
                }),
            out@ == start + concat_map(k as nat, f),
        decreases parts@.len() - k,
    {
        proof {
            lemma_concat_map_step(k as nat, f);
        }
        let ghost before = out@;
        if k > 0 {
            out.append(sep);
        }
        out.append(parts[k].as_str());
        assert(out@ =~= before + f(k as int));
        k = k + 1;
    }
}

impl ContractBuilder {
    /// A contract called `contract_name` that chains `channels`, with no arguments.
    pub fn new(contract_name: &str, channels: Vec<Channel>) -> (b: Self)
        ensures
            b.contract_name@ == contract_name@,
            b.channels@ == channels@,
            b.arguments@.len() == 0,
    {
        ContractBuilder { contract_name: contract_name.to_owned(), channels, arguments: Vec::new() }
    }

    /// Adds an argument after those already there.
    pub fn add_argument(&mut self, name: &str)
        ensures
            final(self).contract_name == old(self).contract_name,
            final(self).channels@ == old(self).channels@,
            argument_names(*final(self)) == argument_names(*old(self)).push(name@),
    {
        let ghost before = self.arguments@;
        self.arguments.push(name.to_owned());
        assert(self.arguments@.map_values(|a: String| a@) =~= before.map_values(|a: String| a@).push(
            name@,
        ));
    }

    fn append_parameters(&self, out: &mut String)
        ensures
            final(out)@ == old(out)@ + parameters(*self),
    {
        let ghost start = out@;
        let ghost ps = argument_names(*self);
        append_joined(out, &self.arguments, ", ");
        if self.arguments.len() > 0 {
            out.append(", ");
        }
        out.append("contract_result");
        proof {
            let all = ps.push("contract_result"@);
            let f = |i: int|
                if i == 0 {
                    all[0]
                } else {
                    ", "@ + all[i]
                };
            let g = |i: int|
                if i == 0 {
                    ps[0]
                } else {
                    ", "@ + ps[i]
                };
            assert forall|k: nat| k <= ps.len() implies concat_map(k, f) == concat_map(k, g) by {
                lemma_concat_map_prefix(k, f, g, ps.len());
            }
            lemma_concat_map_step(ps.len(), f);
        }
    }

    /// Appends the call of channel `k`.
    #[verifier::rlimit(40)]
    fn append_call(&self, s: &mut String, k: usize)
        requires
            k < self.channels@.len(),
        ensures
            final(s)@ == old(s)@ + call_clause(channel_names(*self), argument_names(*self), k as int),
    {
        let ghost cs = channel_names(*self);
        let ghost args = argument_names(*self);
        let ghost before = s@;
        let c = self.channels[k].name.as_str();
        s.append(c);
        if k == 0 {
            s.append("!(");
            if self.arguments.len() > 0 {
                s.append("*");
                append_joined(s, &self.arguments, ",");
                s.append(", ");
            }
            s.append("*");
        } else {
            s.append("!(*");
            s.append(self.channels[k - 1].name.as_str());
            s.append("_result_value, *");
        }
        s.append(c);
        s.append("_result) | for (");
        s.append(c);
        s.append("_result_value <- ");
        s.append(c);
        s.append("_result) { ");
        assert(s@ =~= before + call_clause(cs, args, k as int));
    }

    /// The contract as Rholang source text.
    #[verifier::rlimit(40)]
    pub fn render_rholang(&self) -> (s: String)
        ensures
            s@ == rholang_text(*self),
    {
        let mut s = String::new();
        s.append("contract ");
        s.append(self.contract_name.as_str());
        s.append(" (");
        self.append_parameters(&mut s);
        if self.channels.len() == 0 {
            s.append(") = { contract_result!(Nil) }");
            return s;
        }
        s.append(") = { ");
        let ghost cs = channel_names(*self);
        let ghost args = argument_names(*self);
        let ghost head = s@;
        let n = self.channels.len();
        let mut k: usize = 0;
        while k < n
            invariant
                n == self.channels@.len(),
                cs == channel_names(*self),
                k <= n,
                s@ == head + new_clauses(cs, k as nat),
            decreases n - k,
        {
            let c = self.channels[k].name.as_str();
            s.append("new ");
            s.append(c);
            s.append(", ");
            s.append(c);
            s.append("_result in { ");
            k = k + 1;
            assert(s@ =~= head + new_clauses(cs, k as nat));
        }
        let ghost head2 = s@;
        k = 0;
        while k < n
            invariant
                n == self.channels@.len(),
                n > 0,
                cs == channel_names(*self),
                args == argument_names(*self),
                k <= n,
                s@ == head2 + call_clauses(cs, args, k as nat),
            decreases n - k,
        {
            let ghost before = s@;
            self.append_call(&mut s, k);
            assert(s@ =~= before + call_clause(cs, args, k as int));
            k = k + 1;
        }
        s.append("contract_result!(*");
        s.append(self.channels[n - 1].name.as_str());
        s.append("_result_value)");
        let ghost head3 = s@;
        k = 0;
        while k < n
            invariant
                k <= n,
                s@ == head3 + closing(k as nat),
            decreases n - k,
        {
            s.append(" } }");
            k = k + 1;
        }
        s.append(" }");
        s
    }
}

proof fn lemma_concat_map_prefix(k: nat, f: spec_fn(int) -> Seq<char>, g: spec_fn(int) -> Seq<char>, n: nat)
    requires
        k <= n,
        forall|i: int| 0 <= i < n ==> #[trigger] f(i) == g(i),
    ensures
        concat_map(k, f) == concat_map(k, g),
    decreases k,
{
    if k > 0 {
        lemma_concat_map_prefix((k - 1) as nat, f, g, n);
    }
}

} // verus!
