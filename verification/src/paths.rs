//! Where the match records go on disk: one file per query and document.

use vstd::prelude::*;
use vstd::string::StringExecFns;

verus! {

/// The character of one decimal digit.
pub open spec fn digit_char(d: nat) -> char {
    if d == 0 {
        '0'
    } else if d == 1 {
        '1'
    } else if d == 2 {
        '2'
    } else if d == 3 {
        '3'
    } else if d == 4 {
        '4'
    } else if d == 5 {
        '5'
    } else if d == 6 {
        '6'
    } else if d == 7 {
        '7'
    } else if d == 8 {
        '8'
    } else {
        '9'
    }
}

/// A number written in decimal, most significant digit first and without
/// leading zeros.
pub open spec fn decimal(n: nat) -> Seq<char>
    decreases n,
{
    if n < 10 {
        seq![digit_char(n)]
    } else {
        decimal(n / 10).push(digit_char(n % 10))
    }
}

/// The directory under which all match records are written.
pub const DATA_PATH: &'static str = "output_data";

/// The path of the file that holds the record of a document for a query:
/// the output directory, the query's id as a directory, and the document's
/// id as the file's name.
pub open spec fn path_of(query_id: u64, doc_id: u64) -> Seq<char> {
    DATA_PATH@ + "/"@ + decimal(query_id as nat) + "/"@ + decimal(doc_id as nat) + ".bin"@
}

fn digit_str(d: u64) -> (out: &'static str)
    requires
        d < 10,
    ensures
        out@ == seq![digit_char(d as nat)],
{
    proof {
        reveal_strlit("0");
        reveal_strlit("1");
        reveal_strlit("2");
        reveal_strlit("3");
        reveal_strlit("4");
        reveal_strlit("5");
        reveal_strlit("6");
        reveal_strlit("7");
        reveal_strlit("8");
        reveal_strlit("9");
    }
    let out = if d == 0 {
        "0"
    } else if d == 1 {
        "1"
    } else if d == 2 {
        "2"
    } else if d == 3 {
        "3"
    } else if d == 4 {
        "4"
    } else if d == 5 {
        "5"
    } else if d == 6 {
        "6"
    } else if d == 7 {
        "7"
    } else if d == 8 {
        "8"
    } else {
        "9"
    };
    assert(out@ =~= seq![digit_char(d as nat)]);
    out
}

/// Appends a number in decimal to a string.
pub fn push_decimal(text: &mut String, n: u64)
    ensures
        final(text)@ == old(text)@ + decimal(n as nat),
    decreases n,
{
    if n >= 10 {
        push_decimal(text, n / 10);
    }
    text.append(digit_str(n % 10));
    assert(final(text)@ =~= old(text)@ + decimal(n as nat));
}

/// The path under which the record of document `doc_id` for query
/// `query_id` is written.
pub fn form_path(query_id: u64, doc_id: u64) -> (path: String)
    ensures
        path@ == path_of(query_id, doc_id),
{
    let mut path = DATA_PATH.to_owned();
    path.append("/");
    push_decimal(&mut path, query_id);
    path.append("/");
    push_decimal(&mut path, doc_id);
    path.append(".bin");
    path
}

/// The digit that a decimal character stands for.
pub open spec fn digit_value(c: char) -> nat {
    if c == '0' {
        0
    } else if c == '1' {
        1
    } else if c == '2' {
        2
    } else if c == '3' {
        3
    } else if c == '4' {
        4
    } else if c == '5' {
        5
    } else if c == '6' {
        6
    } else if c == '7' {
        7
    } else if c == '8' {
        8
    } else {
        9
    }
}

/// The number that a string of decimal digits stands for.
pub open spec fn decimal_value(digits: Seq<char>) -> nat
    decreases digits.len(),
{
    if digits.len() == 0 {
        0
    } else {
        decimal_value(digits.drop_last()) * 10 + digit_value(digits.last())
    }
}

/// A number written in decimal reads back as itself, so no two numbers are
/// written alike.
pub proof fn lemma_decimal_reads_back(n: nat)
    ensures
        decimal_value(decimal(n)) == n,
    decreases n,
{
    if n < 10 {
        assert(decimal(n).drop_last() =~= Seq::<char>::empty());
        assert(decimal_value(decimal(n).drop_last()) == 0);
    } else {
        lemma_decimal_reads_back(n / 10);
        assert(decimal(n).drop_last() =~= decimal(n / 10));
        assert(decimal(n).last() == digit_char(n % 10));
    }
}

/// A number written in decimal has at least one character and no slash.
pub proof fn lemma_decimal_has_no_slash(n: nat)
    ensures
        decimal(n).len() >= 1,
        forall|i: int| 0 <= i < decimal(n).len() ==> #[trigger] decimal(n)[i] != '/',
    decreases n,
{
    if n >= 10 {
        lemma_decimal_has_no_slash(n / 10);
    }
}

/// Every pair of a query and a document has a file of its own: two records
/// are written to the same path only if they belong to the same query and
/// the same document.
pub proof fn lemma_paths_are_distinct(query_a: u64, doc_a: u64, query_b: u64, doc_b: u64)
    requires
        path_of(query_a, doc_a) == path_of(query_b, doc_b),
    ensures
        query_a == query_b,
        doc_a == doc_b,
{
    reveal_strlit("/");
    reveal_strlit(".bin");
    let head = DATA_PATH@ + "/"@;
    let slash = "/"@;
    let tail = ".bin"@;
    let qa = decimal(query_a as nat);
    let qb = decimal(query_b as nat);
    let da = decimal(doc_a as nat);
    let db = decimal(doc_b as nat);
    let rest_a = qa + slash + da + tail;
    let rest_b = qb + slash + db + tail;
    lemma_decimal_has_no_slash(query_a as nat);
    lemma_decimal_has_no_slash(query_b as nat);
    assert(path_of(query_a, doc_a) =~= head + rest_a);
    assert(path_of(query_b, doc_b) =~= head + rest_b);
    assert(rest_a =~= (head + rest_a).subrange(head.len() as int, (head + rest_a).len() as int));
    assert(rest_b =~= (head + rest_b).subrange(head.len() as int, (head + rest_b).len() as int));
    assert(rest_a == rest_b);
    if qa.len() < qb.len() {
        assert(rest_a[qa.len() as int] == '/');
        assert(rest_b[qa.len() as int] == qb[qa.len() as int]);
    }
    if qb.len() < qa.len() {
        assert(rest_b[qb.len() as int] == '/');
        assert(rest_a[qb.len() as int] == qa[qb.len() as int]);
    }
    assert(qa.len() == qb.len());
    assert(qa =~= rest_a.subrange(0, qa.len() as int));
    assert(qb =~= rest_b.subrange(0, qb.len() as int));
    lemma_decimal_reads_back(query_a as nat);
    lemma_decimal_reads_back(query_b as nat);
    assert(rest_a.len() == qa.len() + 1 + da.len() + 4);
    assert(rest_b.len() == qb.len() + 1 + db.len() + 4);
    assert(da =~= rest_a.subrange(qa.len() + 1 as int, qa.len() + 1 + da.len() as int));
    assert(db =~= rest_b.subrange(qb.len() + 1 as int, qb.len() + 1 + db.len() as int));
    lemma_decimal_reads_back(doc_a as nat);
    lemma_decimal_reads_back(doc_b as nat);
}

} // verus!
