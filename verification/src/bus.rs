//! The input bus: where it is found, and the engine objects that it asks for.

use vstd::prelude::*;

use crate::paths::{join, joined};
use crate::text::{
    begins, chars_of, first_index, position, same, slice_of, split, split_at_each, starts_with,
    string_of, trim, trimmed, numeral, numerals_read_back, views, write_numeral,
};
use crate::text::laws::{
    all_space, beginnings_have_a_rest, first_places_come_first, has_bare_ends, is_without,
    trimming_finds_the_text,
};

verus! {

// ── the address ────────────────────────────────────────────────────────────────

/// The display by which the bus names its address file: what `WAYLAND_DISPLAY` says, else the
/// number between the colon and the point in what `DISPLAY` says, else zero.
pub open spec fn display_of(wayland: Option<Seq<char>>, display: Seq<char>) -> Seq<char> {
    match wayland {
        Some(w) => w,
        None => {
            let colon = first_index(display, ':');
            if colon < display.len() {
                let rest = display.skip(colon + 1);
                rest.take(first_index(rest, '.'))
            } else {
                "0"@
            }
        },
    }
}

/// The display by which the bus names its address file.
pub fn display_name(wayland: Option<&str>, display: &str) -> (r: String)
    ensures
        r@ == display_of(crate::paths::opt_view(wayland), display@),
{
    if let Some(w) = wayland {
        return w.to_owned();
    }
    let v = chars_of(display);
    let colon: usize = position(&v, ':');
    if colon >= v.len() {
        return "0".to_owned();
    }
    let rest = slice_of(&v, colon + 1, v.len());
    proof {
        assert(rest@ =~= display@.skip(colon as int + 1));
    }
    let point: usize = position(&rest, '.');
    proof {
        assert(rest@.subrange(0, point as int) =~= rest@.take(point as int));
    }
    string_of(&rest, 0, point)
}

/// The path of the bus's address file.
pub open spec fn address_file_of(
    home: Seq<char>,
    machine: Seq<char>,
    display: Seq<char>,
) -> Seq<char> {
    joined(joined(joined(home, "ibus"@), "bus"@), machine + "-unix-"@ + display)
}

/// The path of the bus's address file, below the configuration directory.
pub fn address_file(home: &str, machine: &str, display: &str) -> (r: String)
    ensures
        r@ == address_file_of(home@, machine@, display@),
{
    let mut name = machine.to_owned();
    name.append("-unix-");
    name.append(display);
    join(join(join(home, "ibus").as_str(), "bus").as_str(), name.as_str())
}

/// The address that a line of the address file gives.
pub open spec fn address_in_line(line: Seq<char>) -> Option<Seq<char>> {
    let t = trimmed(line);
    if begins(t, "IBUS_ADDRESS="@) {
        Some(trimmed(t.skip("IBUS_ADDRESS="@.len() as int)))
    } else {
        None
    }
}

/// The address that the first line with one gives.
pub open spec fn address_in(lines: Seq<Seq<char>>) -> Option<Seq<char>>
    decreases lines.len(),
{
    if lines.len() == 0 {
        None
    } else if address_in_line(lines[0]) is Some {
        address_in_line(lines[0])
    } else {
        address_in(lines.skip(1))
    }
}

/// The address that an address file gives.
pub fn find_address(body: &str) -> (r: Option<String>)
    ensures
        match r {
            Some(s) => address_in(split(body@, '\n')) == Some(s@),
            None => address_in(split(body@, '\n')) is None,
        },
{
    let lines = split_at_each(&chars_of(body), '\n');
    let ghost all = split(body@, '\n');
    let mut i: usize = 0;
    proof {
        assert(all.skip(0) =~= all);
    }
    while i < lines.len()
        invariant
            i <= lines@.len(),
            views(lines@) == all,
            all == split(body@, '\n'),
            address_in(all) == address_in(all.skip(i as int)),
        decreases lines@.len() - i,
    {
        let t = trim(&lines[i]);
        let key = chars_of("IBUS_ADDRESS=");
        proof {
            assert(all.skip(i as int)[0] == lines@[i as int]@);
            assert(all.skip(i as int).skip(1) =~= all.skip(i as int + 1));
            assert(t@.subrange(0, t@.len() as int) =~= t@);
        }
        if starts_with(string_of(&t, 0, t.len()).as_str(), "IBUS_ADDRESS=") {
            let value = slice_of(&t, key.len(), t.len());
            proof {
                assert(value@ =~= t@.skip(key@.len() as int));
            }
            let address = trim(&value);
            proof {
                assert(address@.subrange(0, address@.len() as int) =~= address@);
            }
            return Some(string_of(&address, 0, address.len()));
        }
        i = i + 1;
    }
    None
}

// ── engine objects ─────────────────────────────────────────────────────────────

/// Whether the bus may ask for an engine of this name: that of this program, alone or with a
/// keyboard layout behind a colon.
pub open spec fn is_engine_name(name: Seq<char>) -> bool {
    name == "presguel"@ || begins(name, "presguel:"@)
}

/// The path of the engine object with the given number.
pub open spec fn engine_path(n: nat) -> Seq<char> {
    "/org/freedesktop/IBus/Engine/"@ + numeral(n, 10)
}

/// Gives out engine objects, and numbers them.
#[derive(Debug)]
pub struct Factory {
    pub next: u32,
}

impl Factory {
    /// No number given yet.
    pub fn new() -> (r: Factory)
        ensures
            r.next == 0,
    {
        Factory { next: 0 }
    }

    /// Whether the bus may ask for an engine of this name.
    pub fn accepts(name: &str) -> (r: bool)
        ensures
            r == is_engine_name(name@),
    {
        same(name, "presguel") || starts_with(name, "presguel:")
    }

    /// The path for a new engine object of the given name, or an error text where there is no
    /// engine of that name.
    pub fn create_engine(&mut self, name: &str) -> (r: Result<String, String>)
        requires
            is_engine_name(name@) ==> old(self).next < u32::MAX,
        ensures
            match r {
                Ok(path) => is_engine_name(name@) && final(self).next == old(self).next + 1
                    && path@ == engine_path(final(self).next as nat),
                Err(e) => !is_engine_name(name@) && final(self).next == old(self).next && e@
                    == "알 수 없는 엔진: "@ + name@,
            },
    {
        if !Factory::accepts(name) {
            let mut e = "알 수 없는 엔진: ".to_owned();
            e.append(name);
            return Err(e);
        }
        self.next = self.next + 1;
        let mut path = "/org/freedesktop/IBus/Engine/".to_owned();
        write_numeral(&mut path, self.next as u64, 10);
        Ok(path)
    }
}

/// The display of Wayland comes first. Else it is what stands between the first colon of `DISPLAY`
/// and the first point behind that, or the end; and without a colon zero.
pub proof fn displays_stand_behind_the_colon(
    host: Seq<char>,
    number: Seq<char>,
    screen: Seq<char>,
    wayland: Seq<char>,
)
    requires
        is_without(host, ':'),
        is_without(number, '.'),
    ensures
        display_of(Some(wayland), host) == wayland,
        display_of(None, host + seq![':'] + number + seq!['.'] + screen) == number,
        display_of(None, host + seq![':'] + number) == number,
        display_of(None, host) == "0"@,
{
    let long = host + seq![':'] + number + seq!['.'] + screen;
    let short = host + seq![':'] + number;
    let n = host.len() as int;
    lemma_first_at(long, ':', n);
    lemma_first_at(short, ':', n);
    first_places_come_first(host, ':');
    let a = long.skip(n + 1);
    let b = short.skip(n + 1);
    assert(a =~= number + seq!['.'] + screen);
    assert(b =~= number);
    lemma_first_at(a, '.', number.len() as int);
    first_places_come_first(b, '.');
    assert(a.take(number.len() as int) =~= number);
    assert(b.take(b.len() as int) =~= number);
    if first_index(b, '.') < b.len() {
        assert(b[first_index(b, '.')] == '.');
    }
    if first_index(host, ':') < host.len() {
        assert(host[first_index(host, ':')] == ':');
    }
}

proof fn lemma_first_at(s: Seq<char>, c: char, n: int)
    requires
        0 <= n < s.len(),
        s[n] == c,
        forall|i: int| 0 <= i < n ==> #[trigger] s[i] != c,
    ensures
        first_index(s, c) == n,
{
    first_places_come_first(s, c);
    let k = first_index(s, c);
    if k > n {
        assert(s.take(k)[n] == c);
    }
}

/// The address file stands in a fixed place below the configuration directory, under the name of
/// the machine and the display.
pub proof fn address_files_have_a_place(home: Seq<char>, machine: Seq<char>, display: Seq<char>)
    requires
        home.len() > 0,
        home.last() != '/',
    ensures
        address_file_of(home, machine, display) == home + "/ibus/bus/"@ + machine + "-unix-"@
            + display,
{
    reveal_strlit("ibus");
    reveal_strlit("bus");
    reveal_strlit("/ibus/bus/");
    let a = joined(home, "ibus"@);
    assert(a.last() == "ibus"@[3]);
    assert(a =~= home.push('/') + "ibus"@);
    let b = joined(a, "bus"@);
    assert(b.last() == "bus"@[2]);
    assert(b.push('/') =~= home + "/ibus/bus/"@);
    assert(address_file_of(home, machine, display) =~= home + "/ibus/bus/"@ + machine + "-unix-"@
        + display);
}

/// The address is what the first line with one gives behind `IBUS_ADDRESS=`, and white space around
/// the line and the address does not count. Lines before it say nothing.
pub proof fn the_first_address_counts(
    before: Seq<Seq<char>>,
    a: Seq<char>,
    address: Seq<char>,
    b: Seq<char>,
    after: Seq<Seq<char>>,
)
    requires
        forall|i: int|
            0 <= i < before.len() ==> !begins(trimmed(#[trigger] before[i]), "IBUS_ADDRESS="@),
        all_space(a) && all_space(b),
        has_bare_ends(address) && address.len() > 0,
    ensures
        address_in(before + seq![a + ("IBUS_ADDRESS="@ + address) + b] + after) == Some(address),
        address_in(before) is None,
    decreases before.len(),
{
    let line = a + ("IBUS_ADDRESS="@ + address) + b;
    let all = before + seq![line] + after;
    if before.len() == 0 {
        reveal_strlit("IBUS_ADDRESS=");
        let t = "IBUS_ADDRESS="@ + address;
        assert(t[0] == 'I');
        assert(t.last() == address.last());
        trimming_finds_the_text(a, t, b);
        assert(t.take("IBUS_ADDRESS="@.len() as int) =~= "IBUS_ADDRESS="@);
        assert(t.skip("IBUS_ADDRESS="@.len() as int) =~= Seq::<char>::empty() + address
            + Seq::<char>::empty());
        trimming_finds_the_text(Seq::empty(), address, Seq::empty());
        assert(all[0] == line);
    } else {
        assert(all[0] == before[0]);
        assert(!begins(trimmed(before[0]), "IBUS_ADDRESS="@));
        assert(all.skip(1) =~= before.skip(1) + seq![line] + after);
        the_first_address_counts(before.skip(1), a, address, b, after);
    }
}

/// An engine is asked for by the name of this program, alone or with anything behind a colon.
pub proof fn engines_may_name_a_layout(name: Seq<char>)
    ensures
        is_engine_name(name) <==> name == "presguel"@ || exists|layout: Seq<char>|
            name == #[trigger] ("presguel:"@ + layout),
{
    beginnings_have_a_rest(name, "presguel:"@);
}

/// Engine objects of different numbers have different paths, all below one.
pub proof fn engine_paths_are_apart(n: nat, m: nat)
    ensures
        begins(engine_path(n), "/org/freedesktop/IBus/Engine/"@),
        engine_path(n) == engine_path(m) ==> n == m,
        engine_path(n).skip("/org/freedesktop/IBus/Engine/"@.len() as int) == numeral(n, 10),
{
    let p = "/org/freedesktop/IBus/Engine/"@;
    assert(engine_path(n).take(p.len() as int) =~= p);
    assert(engine_path(n).skip(p.len() as int) =~= numeral(n, 10));
    assert(engine_path(m).skip(p.len() as int) =~= numeral(m, 10));
    numerals_read_back(n, 10);
    numerals_read_back(m, 10);
}

} // verus!
