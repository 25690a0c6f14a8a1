//! The login request body: the three fixed form fields the catalog's CGI
//! endpoint expects, serialized with verified `www-form-urlencoded`
//! percent-encoding of the credential bytes.

use vstd::prelude::*;

use vstd::string::{StrSliceExecFns, StringExecFns, StringSliceAdditionalSpecFns};

verus! {

/// Bytes the form encoding passes through unchanged: ASCII alphanumerics
/// and `* - . _`.
pub open spec fn unreserved_byte(b: u8) -> bool {
    ||| 48 <= b <= 57
    ||| 65 <= b <= 90
    ||| 97 <= b <= 122
    ||| b == 42
    ||| b == 45
    ||| b == 46
    ||| b == 95
}

/// The uppercase hexadecimal digit for a value in `0..=15`.
pub open spec fn hex_upper(v: int) -> char {
    if v == 0 {
        '0'
    } else if v == 1 {
        '1'
    } else if v == 2 {
        '2'
    } else if v == 3 {
        '3'
    } else if v == 4 {
        '4'
    } else if v == 5 {
        '5'
    } else if v == 6 {
        '6'
    } else if v == 7 {
        '7'
    } else if v == 8 {
        '8'
    } else if v == 9 {
        '9'
    } else if v == 10 {
        'A'
    } else if v == 11 {
        'B'
    } else if v == 12 {
        'C'
    } else if v == 13 {
        'D'
    } else if v == 14 {
        'E'
    } else {
        'F'
    }
}

/// How one byte is written in a form-encoded value: a space becomes `+`,
/// an unreserved byte stands for itself, anything else is `%XX`.
pub open spec fn encoded_byte(b: u8) -> Seq<char> {
    if b == 32 {
        seq!['+']
    } else if unreserved_byte(b) {
        seq![b as char]
    } else {
        seq!['%', hex_upper(b as int / 16), hex_upper(b as int % 16)]
    }
}

/// The form encoding of a byte string.
pub open spec fn form_encoded(bs: Seq<u8>) -> Seq<char>
    decreases bs.len(),
{
    if bs.len() == 0 {
        Seq::empty()
    } else {
        form_encoded(bs.drop_last()) + encoded_byte(bs.last())
    }
}

fn hex_upper_exec(v: u8) -> (c: char)
    requires
        v <= 15,
    ensures
        c == hex_upper(v as int),
{
    if v == 0 {
        '0'
    } else if v == 1 {
        '1'
    } else if v == 2 {
        '2'
    } else if v == 3 {
        '3'
    } else if v == 4 {
        '4'
    } else if v == 5 {
        '5'
    } else if v == 6 {
        '6'
    } else if v == 7 {
        '7'
    } else if v == 8 {
        '8'
    } else if v == 9 {
        '9'
    } else if v == 10 {
        'A'
    } else if v == 11 {
        'B'
    } else if v == 12 {
        'C'
    } else if v == 13 {
        'D'
    } else if v == 14 {
        'E'
    } else {
        'F'
    }
}

/// Appends the form encoding of `value`'s UTF-8 bytes to `out`.
fn append_form_encoded(out: &mut String, value: &str)
    ensures
        final(out)@ == old(out)@ + form_encoded(value.spec_bytes()),
{
    let bytes = value.as_bytes_vec();
    let n = bytes.len();
    let mut i: usize = 0;
    while i < n
        invariant
            n == bytes@.len(),
            bytes@ == value.spec_bytes(),
            0 <= i <= n,
            out@ == old(out)@ + form_encoded(bytes@.subrange(0, i as int)),
        decreases n - i,
    {
        let b = bytes[i];
        if b == 32 {
            out.push('+');
        } else if (48 <= b && b <= 57) || (65 <= b && b <= 90) || (97 <= b && b <= 122) || b == 42
            || b == 45 || b == 46 || b == 95 {
            out.push(b as char);
        } else {
            out.push('%');
            out.push(hex_upper_exec(b / 16));
            out.push(hex_upper_exec(b % 16));
        }
        proof {
            let pre = bytes@.subrange(0, i as int);
            let post = bytes@.subrange(0, i + 1 as int);
            assert(post.drop_last() =~= pre);
            assert(post.last() == bytes@[i as int]);
            assert(out@ =~= old(out)@ + form_encoded(post));
        }
        i = i + 1;
    }
    proof {
        assert(bytes@.subrange(0, n as int) =~= bytes@);
    }
}

/// The serialized login form: the customer id under `sleKndNr`, the
/// password under `slePw`, and the login action under `pshLogin`, each
/// value form-encoded.
pub open spec fn request_body_spec(
    customer_id: Seq<char>,
    password: Seq<char>,
    login: Seq<char>,
) -> Seq<char> {
    "sleKndNr="@ + form_encoded(vstd::utf8::encode_utf8(customer_id)) + "&slePw="@ + form_encoded(
        vstd::utf8::encode_utf8(password),
    ) + "&pshLogin="@ + form_encoded(vstd::utf8::encode_utf8(login))
}

/// The three form fields of one login request.
#[derive(Debug, Clone)]
pub struct IopacRequestBody {
    pub customer_id: String,
    pub password: String,
    pub login: String,
}

impl IopacRequestBody {
    /// A login request for the given credentials, with the fixed login
    /// action the catalog expects.
    pub fn new(customer_id: String, password: String) -> (r: Self)
        ensures
            r.customer_id@ == customer_id@,
            r.password@ == password@,
            r.login@ == "Login"@,
    {
        Self { customer_id, password, login: String::from_str("Login") }
    }

    /// Serializes the body as `www-form-urlencoded` text.
    pub fn encode(&self) -> (r: String)
        ensures
            r@ == request_body_spec(self.customer_id@, self.password@, self.login@),
    {
        let mut out = String::from_str("sleKndNr=");
        append_form_encoded(&mut out, self.customer_id.as_str());
        out.append("&slePw=");
        append_form_encoded(&mut out, self.password.as_str());
        out.append("&pshLogin=");
        append_form_encoded(&mut out, self.login.as_str());
        proof {
            assert(out@ =~= request_body_spec(self.customer_id@, self.password@, self.login@));
        }
        out
    }
}

} // verus!
