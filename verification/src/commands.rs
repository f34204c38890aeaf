//! Small answers of the application's commands.

use vstd::prelude::*;
use crate::text::{hex_char, owned, push_char, push_str};

verus! {

/// The greeting for `name`.
pub fn greet(name: &str) -> (r: String)
    ensures
        r@ == "Hello, "@ + name@ + "! You've been greeted from Rust!"@,
{
    let mut r = owned("Hello, ");
    push_str(&mut r, name);
    push_str(&mut r, "! You've been greeted from Rust!");
    r
}

/// The hexadecimal digits of `n`, lowercase, without leading zeros.
pub open spec fn hex_digits(n: nat) -> Seq<char>
    decreases n,
{
    if n < 16 {
        seq![hex_char(n)]
    } else {
        hex_digits(n / 16).push(hex_char(n % 16))
    }
}

fn push_hex(out: &mut String, n: u32)
    ensures
        final(out)@ == old(out)@ + hex_digits(n as nat),
    decreases n,
{
    if n >= 16 {
        push_hex(out, n / 16);
    }
    let d: u8 = (n % 16) as u8;
    let c = crate::text::hex_digit_to_char(d);
    push_char(out, c);
    proof {
        if n >= 16 {
            assert(old(out)@ + hex_digits(n as nat) =~= old(out)@ + hex_digits((n / 16) as nat) + seq![hex_char((n % 16) as nat)]);
        } else {
            assert(old(out)@ + hex_digits(n as nat) =~= old(out)@.push(hex_char(n as nat)));
        }
    }
}

/// The answer to emptying the recycle bin from the code the system gave:
/// 0 is done, 1 is cancelled by the user, anything else is an error shown
/// with the code's bits in hexadecimal.
pub fn recycle_bin_result(code: i32) -> (r: Result<bool, String>)
    ensures
        code == 0 ==> r == Ok::<bool, String>(true),
        code == 1 ==> r == Ok::<bool, String>(false),
        code != 0 && code != 1 ==> r is Err && r->Err_0@ == "清空回收站失败，错误码: 0x"@ + hex_digits(code as u32 as nat),
{
    if code == 0 {
        Ok(true)
    } else if code == 1 {
        Ok(false)
    } else {
        let mut msg = owned("清空回收站失败，错误码: 0x");
        let bits = #[verifier::truncate] (code as u32);
        push_hex(&mut msg, bits);
        Err(msg)
    }
}

} // verus!
