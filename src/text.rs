//! Decimal rendering of identifiers and the wording of journal records.
use vstd::prelude::*;
use vstd::string::StringExecFns;

verus! {

/// The character for a decimal digit.
pub open spec fn digit_char(d: nat) -> char {
    if d == 0 {
        '0'
    } else if d == 1 {
        '1'
    } else if d == 2 {
        '2'
    } else if d == 3 {
        '3'
    } else if d == 4 {
        '4'
    } else if d == 5 {
        '5'
    } else if d == 6 {
        '6'
    } else if d == 7 {
        '7'
    } else if d == 8 {
        '8'
    } else {
        '9'
    }
}

/// The decimal notation of `n`, most significant digit first, without leading zeros.
pub open spec fn decimal(n: nat) -> Seq<char>
    decreases n,
{
    if n < 10 {
        seq![digit_char(n)]
    } else {
        decimal(n / 10).push(digit_char(n % 10))
    }
}

fn digit_str(d: u64) -> (r: &'static str)
    requires
        d < 10,
    ensures
        r@ == seq![digit_char(d as nat)],
{
    proof {
        reveal_strlit("0");
        reveal_strlit("1");
        reveal_strlit("2");
        reveal_strlit("3");
        reveal_strlit("4");
        reveal_strlit("5");
        reveal_strlit("6");
        reveal_strlit("7");
        reveal_strlit("8");
        reveal_strlit("9");
    }
    if d == 0 {
        "0"
    } else if d == 1 {
        "1"
    } else if d == 2 {
        "2"
    } else if d == 3 {
        "3"
    } else if d == 4 {
        "4"
    } else if d == 5 {
        "5"
    } else if d == 6 {
        "6"
    } else if d == 7 {
        "7"
    } else if d == 8 {
        "8"
    } else {
        "9"
    }
}

/// Renders `n` in decimal.
pub fn decimal_string(n: u64) -> (r: String)
    ensures
        r@ == decimal(n as nat),
    decreases n,
{
    if n < 10 {
        digit_str(n).to_owned()
    } else {
        let mut s = decimal_string(n / 10);
        s.append(digit_str(n % 10));
        proof {
            assert(s@ =~= decimal(n as nat));
        }
        s
    }
}

/// Journal wording for the creation of a directory.
pub open spec fn create_directory_text(name: Seq<char>) -> Seq<char> {
    "CREATE DIRECTORY: "@ + name
}

/// Journal wording for the creation of a regular file.
pub open spec fn create_file_text(name: Seq<char>) -> Seq<char> {
    "CREATE FILE: "@ + name
}

/// Journal wording for linking a file into a directory.
pub open spec fn add_file_text(file_id: u64, dir_id: u64) -> Seq<char> {
    "ADD FILE: "@ + decimal(file_id as nat) + " TO DIRECTORY: "@ + decimal(dir_id as nat)
}

pub fn create_directory_description(name: &str) -> (r: String)
    ensures
        r@ == create_directory_text(name@),
{
    let mut s = "CREATE DIRECTORY: ".to_owned();
    s.append(name);
    s
}

pub fn create_file_description(name: &str) -> (r: String)
    ensures
        r@ == create_file_text(name@),
{
    let mut s = "CREATE FILE: ".to_owned();
    s.append(name);
    s
}

pub fn add_file_description(file_id: u64, dir_id: u64) -> (r: String)
    ensures
        r@ == add_file_text(file_id, dir_id),
{
    let mut s = "ADD FILE: ".to_owned();
    let f = decimal_string(file_id);
    s.append(f.as_str());
    s.append(" TO DIRECTORY: ");
    let d = decimal_string(dir_id);
    s.append(d.as_str());
    s
}

} // verus!
