//! The configuration: a snapshot of named variables, read by prefix and
//! suffix, and grouped by the stem that their names share.

use crate::dns::RecordType;
use crate::ip::IpAddress;
use crate::text::{
    drop_suffix, ends_with, flag_value, parse_bool, parse_u32, parse_u64, same, starts_with,
    unsigned_value, without_suffix,
};
use vstd::prelude::*;
use vstd::string::*;

verus! {

/// One variable of the snapshot. `address` is the IP address that `value`
/// spells, where it spells one; whoever takes the snapshot fills it in.
#[derive(Debug)]
pub struct Variable {
    pub name: String,
    pub value: String,
    pub address: Option<IpAddress>,
}

/// What a variable holds.
pub struct VariableView {
    pub name: Seq<char>,
    pub value: Seq<char>,
    pub address: Option<IpAddress>,
}

impl View for Variable {
    type V = VariableView;

    open spec fn view(&self) -> VariableView {
        VariableView { name: self.name@, value: self.value@, address: self.address }
    }
}

impl DeepView for Variable {
    type V = VariableView;

    open spec fn deep_view(&self) -> VariableView {
        self@
    }
}

impl Variable {
    pub fn new(name: &str, value: &str, address: Option<IpAddress>) -> (v: Variable)
        ensures
            v@ == (VariableView { name: name@, value: value@, address }),
    {
        Variable { name: String::from_str(name), value: String::from_str(value), address }
    }
}

impl Clone for Variable {
    fn clone(&self) -> (v: Variable)
        ensures
            v@ == self@,
    {
        Variable { name: self.name.clone(), value: self.value.clone(), address: self.address }
    }
}

/// The test that a variable's name begins with `prefix`.
pub open spec fn prefixed(prefix: Seq<char>) -> spec_fn(VariableView) -> bool {
    |v: VariableView| prefix.is_prefix_of(v.name)
}

/// The test that a variable's name ends with `suffix`.
pub open spec fn suffixed(suffix: Seq<char>) -> spec_fn(VariableView) -> bool {
    |v: VariableView| suffix.is_suffix_of(v.name)
}

/// A variable as its name and its value.
pub open spec fn as_pair() -> spec_fn(VariableView) -> (Seq<char>, Seq<char>) {
    |v: VariableView| (v.name, v.value)
}

/// A variable as its name and the address that its value spells.
pub open spec fn as_address() -> spec_fn(VariableView) -> (Seq<char>, Option<IpAddress>) {
    |v: VariableView| (v.name, v.address)
}

/// A variable as its name and the time to live that its value spells.
pub open spec fn as_ttl() -> spec_fn(VariableView) -> (Seq<char>, Option<u32>) {
    |v: VariableView| (v.name, ttl_value(v.value))
}

/// A variable as its name and the flag that its value spells.
pub open spec fn as_flag() -> spec_fn(VariableView) -> (Seq<char>, Option<bool>) {
    |v: VariableView| (v.name, flag_value(v.value))
}

/// A variable as its name and the record type that its value names.
pub open spec fn as_type() -> spec_fn(VariableView) -> (Seq<char>, Option<RecordType>) {
    |v: VariableView| (v.name, RecordType::named(v.value))
}

/// The time to live that `s` spells: an unsigned number of 32 bits.
pub open spec fn ttl_value(s: Seq<char>) -> Option<u32> {
    match unsigned_value(s, u32::MAX as nat) {
        Some(n) => Some(n as u32),
        None => None,
    }
}

/// The number of seconds that `s` spells: an unsigned number of 64 bits.
pub open spec fn seconds_value(s: Seq<char>) -> Option<u64> {
    match unsigned_value(s, u64::MAX as nat) {
        Some(n) => Some(n as u64),
        None => None,
    }
}

/// The number of seconds between two ticks where the configuration names
/// none.
pub const DEFAULT_FREQUENCY: u64 = 300;

/// The stem of a group: the name of its `_NAME` variable without that
/// marker, taken off once.
pub open spec fn stem(name: Seq<char>) -> Seq<char> {
    without_suffix(name, "_NAME"@)
}

/// The variable `entry` belongs to the group of `name` under `marker`: it is
/// the one named by the group's stem and the marker, or it is `name` itself.
pub open spec fn in_group(entry: Seq<char>, name: Seq<char>, marker: Seq<char>) -> bool {
    entry == stem(name) + marker || entry == name
}

/// What the first entry of the group of `name` carries, if there is such an
/// entry. The entries of other groups never count, whatever their names
/// have in common with the group's.
pub open spec fn first_match<T>(
    entries: Seq<(Seq<char>, T)>,
    name: Seq<char>,
    marker: Seq<char>,
) -> Option<T>
    decreases entries.len(),
{
    if entries.len() == 0 {
        None
    } else if in_group(entries[0].0, name, marker) {
        Some(entries[0].1)
    } else {
        first_match(entries.drop_first(), name, marker)
    }
}

/// Only the variables of a group count for it. What `first_match` gives is
/// what the first entry of the group carries, and it gives nothing exactly
/// when no entry is of the group; in particular an entry of another group,
/// such as one whose stem only begins like this one's, never contributes.
pub proof fn lemma_first_match<T>(entries: Seq<(Seq<char>, T)>, name: Seq<char>, marker: Seq<char>)
    ensures
        match first_match(entries, name, marker) {
            Some(v) => exists|i: int|
                0 <= i < entries.len() && in_group(#[trigger] entries[i].0, name, marker)
                    && entries[i].1 == v && forall|j: int|
                    0 <= j < i ==> !in_group(#[trigger] entries[j].0, name, marker),
            None => forall|i: int|
                0 <= i < entries.len() ==> !in_group(#[trigger] entries[i].0, name, marker),
        },
    decreases entries.len(),
{
    if entries.len() > 0 {
        if in_group(entries[0].0, name, marker) {
        } else {
            let rest = entries.drop_first();
            lemma_first_match(rest, name, marker);
            match first_match(rest, name, marker) {
                Some(v) => {
                    let i = choose|i: int|
                        0 <= i < rest.len() && in_group(#[trigger] rest[i].0, name, marker)
                            && rest[i].1 == v && forall|j: int|
                            0 <= j < i ==> !in_group(#[trigger] rest[j].0, name, marker);
                    assert(entries[i + 1] == rest[i]);
                    assert forall|j: int| 0 <= j < i + 1 implies !in_group(
                        #[trigger] entries[j].0,
                        name,
                        marker,
                    ) by {
                        if j > 0 {
                            assert(entries[j] == rest[j - 1]);
                        }
                    }
                },
                None => {
                    assert forall|i: int| 0 <= i < entries.len() implies !in_group(
                        #[trigger] entries[i].0,
                        name,
                        marker,
                    ) by {
                        if i > 0 {
                            assert(entries[i] == rest[i - 1]);
                        }
                    }
                },
            }
        }
    }
}

/// A value that was looked up and read: `None` where it is absent or does
/// not read.
pub open spec fn read<T>(found: Option<Option<T>>) -> Option<T> {
    match found {
        Some(Some(v)) => Some(v),
        _ => None,
    }
}

/// Entries with their names taken as text.
pub open spec fn entries_of<T>(entries: Seq<(String, T)>) -> Seq<(Seq<char>, T)> {
    entries.map_values(|e: (String, T)| (e.0@, e.1))
}

/// What a configuration holds: the prefix that marks its variables, and the
/// snapshot in the order in which it was taken.
pub struct ConfigView {
    pub prefix: Seq<char>,
    pub vars: Seq<VariableView>,
}

impl ConfigView {
    /// The variables of the configuration: those whose names begin with the
    /// prefix, in the snapshot's order.
    pub open spec fn vars(self) -> Seq<VariableView> {
        self.vars.filter(prefixed(self.prefix))
    }

    /// The variables of the configuration whose names end with `suffix`.
    pub open spec fn vars_by(self, suffix: Seq<char>) -> Seq<VariableView> {
        self.vars().filter(suffixed(suffix))
    }

    /// The value of the first variable whose name ends with `suffix`.
    pub open spec fn var_by(self, suffix: Seq<char>) -> Option<Seq<char>> {
        if self.vars_by(suffix).len() > 0 {
            Some(self.vars_by(suffix)[0].value)
        } else {
            None
        }
    }

    pub open spec fn zone_id(self) -> Option<Seq<char>> {
        self.var_by("_ZONE_ID"@)
    }

    pub open spec fn cloudflare_api_key(self) -> Option<Seq<char>> {
        self.var_by("_CLOUDFLARE_API_KEY"@)
    }

    pub open spec fn cloudflare_email(self) -> Option<Seq<char>> {
        self.var_by("_CLOUDFLARE_EMAIL"@)
    }

    pub open spec fn frequency(self) -> Option<u64> {
        match self.var_by("_FREQUENCY"@) {
            Some(v) => seconds_value(v),
            None => None,
        }
    }

    /// The number of seconds between two ticks: the frequency, where the
    /// configuration holds one that reads, and `DEFAULT_FREQUENCY` else.
    pub open spec fn poll_interval(self) -> u64 {
        match self.frequency() {
            Some(seconds) => seconds,
            None => DEFAULT_FREQUENCY,
        }
    }

    pub open spec fn names(self) -> Seq<(Seq<char>, Seq<char>)> {
        self.vars_by("_NAME"@).map_values(as_pair())
    }

    pub open spec fn types(self) -> Seq<(Seq<char>, Option<RecordType>)> {
        self.vars_by("_TYPE"@).map_values(as_type())
    }

    pub open spec fn ip(self) -> Seq<(Seq<char>, Option<IpAddress>)> {
        self.vars_by("_IP"@).map_values(as_address())
    }

    pub open spec fn ttl(self) -> Seq<(Seq<char>, Option<u32>)> {
        self.vars_by("_TTL"@).map_values(as_ttl())
    }

    pub open spec fn proxied(self) -> Seq<(Seq<char>, Option<bool>)> {
        self.vars_by("_PROXIED"@).map_values(as_flag())
    }

    /// The record type of the group of `name`, as found and as read.
    pub open spec fn find_type(self, name: Seq<char>) -> Option<Option<RecordType>> {
        first_match(self.types(), name, "_TYPE"@)
    }

    /// The address of the group of `name`, as found and as read.
    pub open spec fn find_ip(self, name: Seq<char>) -> Option<Option<IpAddress>> {
        first_match(self.ip(), name, "_IP"@)
    }

    /// The time to live of the group of `name`, as found and as read.
    pub open spec fn find_ttl(self, name: Seq<char>) -> Option<Option<u32>> {
        first_match(self.ttl(), name, "_TTL"@)
    }

    /// The proxy flag of the group of `name`, as found and as read.
    pub open spec fn find_proxied(self, name: Seq<char>) -> Option<Option<bool>> {
        first_match(self.proxied(), name, "_PROXIED"@)
    }
}

/// The configuration of the program: the variables of a snapshot whose names
/// begin with a prefix.
#[derive(Debug)]
pub struct Config {
    prefix: String,
    vars: Vec<Variable>,
}

impl View for Config {
    type V = ConfigView;

    closed spec fn view(&self) -> ConfigView {
        ConfigView { prefix: self.prefix@, vars: self.vars.deep_view() }
    }
}

/// What the first entry of the group of `name` carries.
fn first_in_group<T: Copy>(entries: &Vec<(String, T)>, name: &str, marker: &str) -> (r: Option<T>)
    ensures
        r == first_match(entries_of(entries@), name@, marker@),
{
    let mut key = String::from_str(drop_suffix(name, "_NAME"));
    key.append(marker);
    let ghost all = entries_of(entries@);
    assert(all.skip(0) == all);
    let mut i: usize = 0;
    while i < entries.len()
        invariant
            i <= entries.len(),
            all == entries_of(entries@),
            key@ == stem(name@) + marker@,
            first_match(all, name@, marker@) == first_match(all.skip(i as int), name@, marker@),
        decreases entries.len() - i,
    {
        assert(all.skip(i as int)[0] == all[i as int]);
        assert(all.skip(i as int).drop_first() == all.skip(i + 1));
        if same(entries[i].0.as_str(), key.as_str()) || same(entries[i].0.as_str(), name) {
            return Some(entries[i].1);
        }
        i += 1;
    }
    None
}

impl Config {
    /// The configuration that `vars`, a snapshot of the environment, gives
    /// under `prefix`.
    pub fn new(prefix: &str, vars: Vec<Variable>) -> (c: Config)
        ensures
            c@ == (ConfigView { prefix: prefix@, vars: vars.deep_view() }),
    {
        Config { prefix: String::from_str(prefix), vars }
    }

    /// The variables whose names begin with the prefix and end with
    /// `suffix`, in the snapshot's order.
    fn select(&self, suffix: &str) -> (r: Vec<Variable>)
        ensures
            r.deep_view() == self@.vars_by(suffix@),
    {
        let mut out: Vec<Variable> = Vec::new();
        let ghost all = self.vars.deep_view();
        let ghost p = prefixed(self.prefix@);
        let ghost q = suffixed(suffix@);
        assert(all.take(0) == Seq::<VariableView>::empty());
        assert(out.deep_view() == all.take(0).filter(p).filter(q)) by {
            reveal(Seq::filter);
            assert(out.deep_view() == Seq::<VariableView>::empty());
        }
        let mut i: usize = 0;
        while i < self.vars.len()
            invariant
                i <= self.vars.len(),
                all == self.vars.deep_view(),
                p == prefixed(self.prefix@),
                q == suffixed(suffix@),
                out.deep_view() == all.take(i as int).filter(p).filter(q),
            decreases self.vars.len() - i,
        {
            let v = &self.vars[i];
            let ghost before = out.deep_view();
            let keep = starts_with(v.name.as_str(), self.prefix.as_str()) && ends_with(
                v.name.as_str(),
                suffix,
            );
            if keep {
                out.push(v.clone());
                assert(out.deep_view() == before.push(v@));
            }
            proof {
                let head = all.take(i as int);
                assert(all.take(i + 1) == head.push(v@));
                head.lemma_filter_push(v@, p);
                head.filter(p).lemma_filter_push(v@, q);
            }
            i += 1;
        }
        assert(all.take(i as int) == all);
        out
    }

    /// The variables whose names begin with the prefix, as names and
    /// values.
    pub fn vars(&self) -> (r: Vec<(String, String)>)
        ensures
            r.deep_view() == self@.vars().map_values(as_pair()),
    {
        let chosen = self.select("");
        proof {
            reveal_strlit("");
            let all = self@.vars();
            assert forall|i: int| 0 <= i < all.len() implies suffixed(""@)(#[trigger] all[i]) by {
                assert(all[i].name.subrange(all[i].name.len() as int, all[i].name.len() as int)
                    == ""@);
            }
            lemma_filter_all(all, suffixed(""@));
        }
        pairs_of(&chosen)
    }

    /// The variables whose names end with `suffix`, as names and values.
    pub fn get_vars_by(&self, suffix: &str) -> (r: Vec<(String, String)>)
        ensures
            r.deep_view() == self@.vars_by(suffix@).map_values(as_pair()),
    {
        let chosen = self.select(suffix);
        pairs_of(&chosen)
    }

    /// The value of the first variable whose name ends with `suffix`.
    pub fn get_var_by(&self, suffix: &str) -> (r: Option<String>)
        ensures
            r.deep_view() == self@.var_by(suffix@),
    {
        let mut chosen = self.select(suffix);
        if chosen.len() > 0 {
            let first = chosen.swap_remove(0);
            Some(first.value)
        } else {
            None
        }
    }

    /// Get the `REET_ZONE_ID` environment variable
    pub fn zone_id(&self) -> (r: Option<String>)
        ensures
            r.deep_view() == self@.zone_id(),
    {
        self.get_var_by("_ZONE_ID")
    }

    /// Get the `REET_CLOUDFLARE_API_KEY` environment variable
    pub fn cloudflare_api_key(&self) -> (r: Option<String>)
        ensures
            r.deep_view() == self@.cloudflare_api_key(),
    {
        self.get_var_by("_CLOUDFLARE_API_KEY")
    }

    /// Get the `REET_CLOUDFLARE_EMAIL` environment variable
    pub fn cloudflare_email(&self) -> (r: Option<String>)
        ensures
            r.deep_view() == self@.cloudflare_email(),
    {
        self.get_var_by("_CLOUDFLARE_EMAIL")
    }

    /// Get the `REET_FREQUENCY` environment variable
    pub fn frequency(&self) -> (r: Option<u64>)
        ensures
            r == self@.frequency(),
    {
        match self.get_var_by("_FREQUENCY") {
            Some(v) => parse_u64(v.as_str()),
            None => None,
        }
    }

    /// The number of seconds to wait between two ticks.
    pub fn poll_interval(&self) -> (r: u64)
        ensures
            r == self@.poll_interval(),
    {
        match self.frequency() {
            Some(seconds) => seconds,
            None => DEFAULT_FREQUENCY,
        }
    }

    /// Get all the `REET_*_NAME` environment variables
    pub fn names(&self) -> (r: Vec<(String, String)>)
        ensures
            r.deep_view() == self@.names(),
    {
        self.get_vars_by("_NAME")
    }

    /// Get all the `REET_*_TYPE` environment variables
    pub fn types(&self) -> (r: Vec<(String, Option<RecordType>)>)
        ensures
            entries_of(r@) == self@.types(),
    {
        let chosen = self.select("_TYPE");
        let mut out: Vec<(String, Option<RecordType>)> = Vec::new();
        let mut i: usize = 0;
        while i < chosen.len()
            invariant
                i <= chosen.len(),
                out.len() == i,
                forall|j: int|
                    0 <= j < i ==> ((#[trigger] out@[j]).0@, out@[j].1) == as_type()(chosen@[j]@),
            decreases chosen.len() - i,
        {
            let kind = match RecordType::parse(chosen[i].value.as_str()) {
                Ok(t) => Some(t),
                Err(_) => None,
            };
            out.push((chosen[i].name.clone(), kind));
            i += 1;
        }
        assert(entries_of(out@) =~= chosen.deep_view().map_values(as_type()));
        out
    }

    /// Get all the `REET_*_IP` environment variables
    pub fn ip(&self) -> (r: Vec<(String, Option<IpAddress>)>)
        ensures
            entries_of(r@) == self@.ip(),
    {
        let chosen = self.select("_IP");
        let mut out: Vec<(String, Option<IpAddress>)> = Vec::new();
        let mut i: usize = 0;
        while i < chosen.len()
            invariant
                i <= chosen.len(),
                out.len() == i,
                forall|j: int|
                    0 <= j < i ==> ((#[trigger] out@[j]).0@, out@[j].1) == as_address()(
                        chosen@[j]@,
                    ),
            decreases chosen.len() - i,
        {
            out.push((chosen[i].name.clone(), chosen[i].address));
            i += 1;
        }
        assert(entries_of(out@) =~= chosen.deep_view().map_values(as_address()));
        out
    }

    /// Get all the `REET_*_TTL` environment variables
    pub fn ttl(&self) -> (r: Vec<(String, Option<u32>)>)
        ensures
            entries_of(r@) == self@.ttl(),
    {
        let chosen = self.select("_TTL");
        let mut out: Vec<(String, Option<u32>)> = Vec::new();
        let mut i: usize = 0;
        while i < chosen.len()
            invariant
                i <= chosen.len(),
                out.len() == i,
                forall|j: int|
                    0 <= j < i ==> ((#[trigger] out@[j]).0@, out@[j].1) == as_ttl()(chosen@[j]@),
            decreases chosen.len() - i,
        {
            out.push((chosen[i].name.clone(), parse_u32(chosen[i].value.as_str())));
            i += 1;
        }
        assert(entries_of(out@) =~= chosen.deep_view().map_values(as_ttl()));
        out
    }

    /// Get all the `REET_*_PROXIED` environment variables
    pub fn proxied(&self) -> (r: Vec<(String, Option<bool>)>)
        ensures
            entries_of(r@) == self@.proxied(),
    {
        let chosen = self.select("_PROXIED");
        let mut out: Vec<(String, Option<bool>)> = Vec::new();
        let mut i: usize = 0;
        while i < chosen.len()
            invariant
                i <= chosen.len(),
                out.len() == i,
                forall|j: int|
                    0 <= j < i ==> ((#[trigger] out@[j]).0@, out@[j].1) == as_flag()(chosen@[j]@),
            decreases chosen.len() - i,
        {
            out.push((chosen[i].name.clone(), parse_bool(chosen[i].value.as_str())));
            i += 1;
        }
        assert(entries_of(out@) =~= chosen.deep_view().map_values(as_flag()));
        out
    }

    /// The `REET_*_TYPE` variable of the group of a `REET_*_NAME`: whether
    /// there is one, and what it reads as.
    pub fn find_type(&self, name: &str) -> (r: Option<Option<RecordType>>)
        ensures
            r == self@.find_type(name@),
    {
        let entries = self.types();
        first_in_group(&entries, name, "_TYPE")
    }

    /// The `REET_*_IP` variable of the group of a `REET_*_NAME`: whether
    /// there is one, and what it reads as.
    pub fn find_ip(&self, name: &str) -> (r: Option<Option<IpAddress>>)
        ensures
            r == self@.find_ip(name@),
    {
        let entries = self.ip();
        first_in_group(&entries, name, "_IP")
    }

    /// The `REET_*_TTL` variable of the group of a `REET_*_NAME`: whether
    /// there is one, and what it reads as.
    pub fn find_ttl(&self, name: &str) -> (r: Option<Option<u32>>)
        ensures
            r == self@.find_ttl(name@),
    {
        let entries = self.ttl();
        first_in_group(&entries, name, "_TTL")
    }

    /// The `REET_*_PROXIED` variable of the group of a `REET_*_NAME`:
    /// whether there is one, and what it reads as.
    pub fn find_proxied(&self, name: &str) -> (r: Option<Option<bool>>)
        ensures
            r == self@.find_proxied(name@),
    {
        let entries = self.proxied();
        first_in_group(&entries, name, "_PROXIED")
    }

    /// Get the `REET_*_TYPE` variable from a `REET_*_NAME`
    pub fn get_type(&self, name: &str) -> (r: Option<RecordType>)
        ensures
            r == read(self@.find_type(name@)),
    {
        match self.find_type(name) {
            Some(Some(v)) => Some(v),
            _ => None,
        }
    }

    /// Get the `REET_*_IP` variable from a `REET_*_NAME`
    pub fn get_ip(&self, name: &str) -> (r: Option<IpAddress>)
        ensures
            r == read(self@.find_ip(name@)),
    {
        match self.find_ip(name) {
            Some(Some(v)) => Some(v),
            _ => None,
        }
    }

    /// Get the `REET_*_TTL` variable from a `REET_*_NAME`
    pub fn get_ttl(&self, name: &str) -> (r: Option<u32>)
        ensures
            r == read(self@.find_ttl(name@)),
    {
        match self.find_ttl(name) {
            Some(Some(v)) => Some(v),
            _ => None,
        }
    }

    /// Get the `REET_*_PROXIED` variable from a `REET_*_NAME`
    pub fn get_proxied(&self, name: &str) -> (r: Option<bool>)
        ensures
            r == read(self@.find_proxied(name@)),
    {
        match self.find_proxied(name) {
            Some(Some(v)) => Some(v),
            _ => None,
        }
    }
}

/// A sequence whose every element passes a test is its own filter.
proof fn lemma_filter_all<A>(s: Seq<A>, pred: spec_fn(A) -> bool)
    requires
        forall|i: int| 0 <= i < s.len() ==> pred(#[trigger] s[i]),
    ensures
        s.filter(pred) == s,
    decreases s.len(),
{
    reveal(Seq::filter);
    if s.len() > 0 {
        lemma_filter_all(s.drop_last(), pred);
        assert(s.drop_last().push(s.last()) == s);
    }
}

/// The variables as names and values.
fn pairs_of(vars: &Vec<Variable>) -> (r: Vec<(String, String)>)
    ensures
        r.deep_view() == vars.deep_view().map_values(as_pair()),
{
    let mut out: Vec<(String, String)> = Vec::new();
    let mut i: usize = 0;
    while i < vars.len()
        invariant
            i <= vars.len(),
            out.len() == i,
            forall|j: int| 0 <= j < i ==> (#[trigger] out@[j]).deep_view() == as_pair()(vars@[j]@),
        decreases vars.len() - i,
    {
        out.push((vars[i].name.clone(), vars[i].value.clone()));
        i += 1;
    }
    assert(out.deep_view() =~= vars.deep_view().map_values(as_pair()));
    out
}

} // verus!
