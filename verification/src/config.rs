//! Server configuration: the bind address, the port and the world path.

use vstd::prelude::*;

verus! {

/// The server configuration.
#[derive(Debug, Clone, PartialEq, Eq)]
pub struct Config {
    /// The address to bind.
    pub addr: String,
    /// The port to bind.
    pub port: u16,
    /// The path of the world file.
    pub world: String,
    /// Whether the configuration came from a file.
    pub from_file: bool,
}

/// The decimal digits of a 16-bit number, most significant first.
pub open spec fn spec_decimal(n: int) -> Seq<char>
    decreases n,
{
    if n <= 0 {
        Seq::empty()
    } else {
        spec_decimal(n / 10).push(digit_char(n % 10))
    }
}

/// The character for one digit.
pub open spec fn digit_char(d: int) -> char {
    if d == 0 {
        '0'
    } else if d == 1 {
        '1'
    } else if d == 2 {
        '2'
    } else if d == 3 {
        '3'
    } else if d == 4 {
        '4'
    } else if d == 5 {
        '5'
    } else if d == 6 {
        '6'
    } else if d == 7 {
        '7'
    } else if d == 8 {
        '8'
    } else {
        '9'
    }
}

/// The decimal form of a 16-bit number: its digits, or "0" for zero.
pub open spec fn spec_port_text(n: u16) -> Seq<char> {
    if n == 0 {
        seq!['0']
    } else {
        spec_decimal(n as int)
    }
}

/// The characters of the given digit values, one character per digit.
pub open spec fn digit_chars(s: Seq<u16>) -> Seq<char> {
    s.map_values(|d: u16| digit_char(d as int))
}

/// Append one decimal digit.
fn push_digit(r: &mut String, d: u16)
    requires
        d <= 9,
    ensures
        final(r)@ == old(r)@.push(digit_char(d as int)),
{
    proof {
        reveal_strlit("0");
        reveal_strlit("1");
        reveal_strlit("2");
        reveal_strlit("3");
        reveal_strlit("4");
        reveal_strlit("5");
        reveal_strlit("6");
        reveal_strlit("7");
        reveal_strlit("8");
        reveal_strlit("9");
    }
    if d == 0 {
        r.append("0");
    } else if d == 1 {
        r.append("1");
    } else if d == 2 {
        r.append("2");
    } else if d == 3 {
        r.append("3");
    } else if d == 4 {
        r.append("4");
    } else if d == 5 {
        r.append("5");
    } else if d == 6 {
        r.append("6");
    } else if d == 7 {
        r.append("7");
    } else if d == 8 {
        r.append("8");
    } else {
        r.append("9");
    }
    assert(final(r)@ =~= old(r)@.push(digit_char(d as int)));
}

/// Write a 16-bit number in decimal.
fn decimal_u16(n: u16) -> (r: String)
    ensures
        r@ == spec_port_text(n),
{
    let mut r = String::new();
    if n == 0 {
        push_digit(&mut r, 0);
        proof {
            assert(r@ =~= seq!['0']);
        }
        return r;
    }
    let mut digits: Vec<u16> = Vec::new();
    let mut m: u16 = n;
    while m > 0
        invariant
            spec_decimal(n as int) == spec_decimal(m as int) + digit_chars(digits@).reverse(),
            forall|j: int| 0 <= j < digits@.len() ==> #[trigger] digits@[j] <= 9,
        decreases m,
    {
        let d = m % 10;
        let ghost before = digits@;
        digits.push(d);
        proof {
            assert(digit_chars(digits@) =~= digit_chars(before).push(digit_char(d as int)));
            assert(digit_chars(digits@).reverse() =~= seq![digit_char(d as int)] + digit_chars(
                before,
            ).reverse());
            assert(spec_decimal(m as int) == spec_decimal(m as int / 10).push(
                digit_char(m as int % 10),
            ));
            assert(spec_decimal(m as int / 10) + (seq![digit_char(d as int)] + digit_chars(
                before,
            ).reverse()) =~= spec_decimal(m as int) + digit_chars(before).reverse());
        }
        m = m / 10;
    }
    proof {
        assert(spec_decimal(0int) == Seq::<char>::empty());
        assert(Seq::<char>::empty() + digit_chars(digits@).reverse() =~= digit_chars(
            digits@,
        ).reverse());
    }
    let mut i: usize = digits.len();
    while i > 0
        invariant
            forall|j: int| 0 <= j < digits@.len() ==> #[trigger] digits@[j] <= 9,
            i <= digits@.len(),
            r@ == digit_chars(digits@).subrange(i as int, digits@.len() as int).reverse(),
        decreases i,
    {
        i = i - 1;
        push_digit(&mut r, digits[i]);
        proof {
            assert(r@ =~= digit_chars(digits@).subrange(i as int, digits@.len() as int).reverse());
        }
    }
    proof {
        assert(digit_chars(digits@).subrange(0, digits@.len() as int) =~= digit_chars(digits@));
        assert(r@ == digit_chars(digits@).reverse());
    }
    r
}

impl Config {
    /// A configuration from its three parts.
    pub fn new(addr: &str, port: u16, world: &str) -> (r: Config)
        ensures
            r.addr@ == addr@,
            r.port == port,
            r.world@ == world@,
            r.from_file == false,
    {
        Config { addr: addr.to_owned(), port, world: world.to_owned(), from_file: false }
    }

    /// The bind address and port joined with a colon.
    pub fn get_address(&self) -> (r: String)
        ensures
            r@ == self.addr@ + seq![':'] + spec_port_text(self.port),
    {
        let mut r = self.addr.clone();
        proof {
            reveal_strlit(":");
        }
        r.append(":");
        let p = decimal_u16(self.port);
        r.append(p.as_str());
        proof {
            assert(r@ =~= self.addr@ + seq![':'] + spec_port_text(self.port));
        }
        r
    }
}

} // verus!
