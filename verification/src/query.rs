//! The queries that the listings are read with.

use vstd::prelude::*;

use crate::text::{chars_of, decimal, decimal_of};

verus! {

/// The partition that holds the files which stand in no top-level directory.
pub const ROOT_PARTITION: &'static str = "__root__";

/// The query for the files of the root partition.
pub open spec fn root_files_sql(glob: Seq<char>, where_clause: Seq<char>) -> Seq<char> {
    "SELECT path, size, atime\nFROM read_parquet('"@ + glob + "')\n"@ + where_clause
}

/// The query for the files of the root partition, for an index glob and a full
/// `WHERE` clause (empty for none). Its columns are path, size and access time.
pub fn root_files_query(glob: &str, where_clause: &str) -> (r: String)
    ensures
        r@ == root_files_sql(glob@, where_clause@),
{
    let mut s = "SELECT path, size, atime\nFROM read_parquet('".to_owned();
    s.append(glob);
    s.append("')\n");
    s.append(where_clause);
    s
}

/// The partitions that are listed: all that have a name, other than the root
/// partition, whose files are listed themselves.
pub open spec fn named_partitions() -> Seq<char> {
    "HAVING partition IS NOT NULL AND partition != '' AND partition != '"@ + ROOT_PARTITION@ + "'"@
}

/// The partitions that are listed under a filter: those of them that hold a file
/// which passes it. An empty filter lets everything pass.
pub open spec fn having_sql(filter: Seq<char>) -> Seq<char> {
    if filter.len() == 0 {
        named_partitions()
    } else {
        named_partitions() + " AND SUM(CASE WHEN "@ + filter + " THEN 1 ELSE 0 END) > 0"@
    }
}

/// The aggregates of a partition: of all its files, or of those that pass the
/// filter where filters are active.
pub open spec fn partition_columns(filter: Seq<char>, active: bool) -> Seq<char> {
    if active {
        "    SUM(CASE WHEN "@ + filter + " THEN size ELSE 0 END) as total_size,\n"@
            + "    MAX(CASE WHEN "@ + filter + " THEN atime ELSE 0 END) as latest_atime,\n"@
            + "    SUM(CASE WHEN "@ + filter + " THEN 1 ELSE 0 END) as file_count\n"@
    } else {
        "    SUM(size) as total_size,\n    MAX(atime) as latest_atime,\n    COUNT(*) as file_count\n"@
    }
}

/// The query for the list of partitions.
pub open spec fn partitions_sql(
    glob: Seq<char>,
    filter: Seq<char>,
    active: bool,
    order: Seq<char>,
) -> Seq<char> {
    "SELECT\n    regexp_extract(filename, '.*/([^/]+)/[^/]+\\.parquet$', 1) as partition,\n"@
        + partition_columns(filter, active) + "FROM read_parquet('"@ + glob
        + "', filename=true)\nGROUP BY partition\n"@ + (if active {
        having_sql(filter)
    } else {
        named_partitions()
    }) + "\nORDER BY "@ + order
}

fn having_clause(filter: &str) -> (r: String)
    ensures
        r@ == having_sql(filter@),
{
    let mut s =
        "HAVING partition IS NOT NULL AND partition != '' AND partition != '".to_owned();
    s.append(ROOT_PARTITION);
    s.append("'");
    if !filter.is_empty() {
        s.append(" AND SUM(CASE WHEN ");
        s.append(filter);
        s.append(" THEN 1 ELSE 0 END) > 0");
    }
    s
}

fn aggregate_columns(filter: &str, active: bool) -> (r: String)
    ensures
        r@ == partition_columns(filter@, active),
{
    if active {
        let mut s = "    SUM(CASE WHEN ".to_owned();
        s.append(filter);
        s.append(" THEN size ELSE 0 END) as total_size,\n");
        s.append("    MAX(CASE WHEN ");
        s.append(filter);
        s.append(" THEN atime ELSE 0 END) as latest_atime,\n");
        s.append("    SUM(CASE WHEN ");
        s.append(filter);
        s.append(" THEN 1 ELSE 0 END) as file_count\n");
        s
    } else {
        "    SUM(size) as total_size,\n    MAX(atime) as latest_atime,\n    COUNT(*) as file_count\n".to_owned()
    }
}

/// The query for the list of partitions: for an index glob, a filter condition
/// (empty for none), whether filters are active, and what to order by. The
/// partition of a file is the directory of its chunk. The columns are name, total
/// size, latest access time and file count.
pub fn partitions_query(glob: &str, filter: &str, active: bool, order: &str) -> (r: String)
    ensures
        r@ == partitions_sql(glob@, filter@, active, order@),
{
    let mut s =
        "SELECT\n    regexp_extract(filename, '.*/([^/]+)/[^/]+\\.parquet$', 1) as partition,\n".to_owned();
    let columns = aggregate_columns(filter, active);
    s.append(columns.as_str());
    s.append("FROM read_parquet('");
    s.append(glob);
    s.append("', filename=true)\nGROUP BY partition\n");
    let having = if active {
        having_clause(filter)
    } else {
        let h = having_clause("");
        proof {
            reveal_strlit("");
        }
        h
    };
    s.append(having.as_str());
    s.append("\nORDER BY ");
    s.append(order);
    s
}

/// The query for the first and the last path of a partition.
pub open spec fn path_range_sql(glob: Seq<char>) -> Seq<char> {
    "SELECT MIN(path), MAX(path) FROM read_parquet('"@ + glob + "')"@
}

/// The query for the first and the last path of a partition, in the order of
/// their bytes; none where it has no paths.
pub fn path_range_query(glob: &str) -> (r: String)
    ensures
        r@ == path_range_sql(glob@),
{
    let mut s = "SELECT MIN(path), MAX(path) FROM read_parquet('".to_owned();
    s.append(glob);
    s.append("')");
    s
}

/// Text with each of its quotes doubled, as it stands in a literal.
pub open spec fn doubled(s: Seq<char>) -> Seq<char>
    decreases s.len(),
{
    if s.len() == 0 {
        Seq::empty()
    } else {
        doubled(s.drop_last()) + (if s.last() == '\'' {
            seq!['\'', '\'']
        } else {
            seq![s.last()]
        })
    }
}

/// The literal of a text.
pub open spec fn literal(s: Seq<char>) -> Seq<char> {
    "'"@ + doubled(s) + "'"@
}

/// The literal of a text.
pub fn literal_of(s: &str) -> (r: String)
    ensures
        r@ == literal(s@),
{
    let chars = chars_of(s);
    let mut inner = String::new();
    let mut i: usize = 0;
    assert(s@.take(0) =~= Seq::<char>::empty());
    while i < chars.len()
        invariant
            i <= chars@.len(),
            chars@ == s@,
            inner@ == doubled(s@.take(i as int)),
        decreases chars@.len() - i,
    {
        assert(s@.take(i + 1).drop_last() =~= s@.take(i as int));
        let ghost before = inner@;
        let c = chars[i];
        inner.push(c);
        if c == '\'' {
            inner.push(c);
            assert(inner@ =~= before + seq!['\'', '\'']);
        } else {
            assert(inner@ =~= before + seq![c]);
        }
        i += 1;
    }
    assert(s@.take(i as int) =~= s@);
    let mut r = "'".to_owned();
    r.append(inner.as_str());
    r.append("'");
    r
}

/// What a literal says whose opening quote stands before `s`: two quotes are one,
/// and a single one ends it. With it comes what follows the literal.
pub open spec fn read_literal(s: Seq<char>) -> Option<(Seq<char>, Seq<char>)>
    decreases s.len(),
{
    if s.len() == 0 {
        None
    } else if s[0] != '\'' {
        match read_literal(s.drop_first()) {
            Some((text, rest)) => Some((seq![s[0]] + text, rest)),
            None => None,
        }
    } else if s.len() > 1 && s[1] == '\'' {
        match read_literal(s.skip(2)) {
            Some((text, rest)) => Some((seq!['\''] + text, rest)),
            None => None,
        }
    } else {
        Some((Seq::empty(), s.drop_first()))
    }
}

proof fn lemma_doubled_front(c: char, s: Seq<char>)
    ensures
        doubled(seq![c] + s) == (if c == '\'' {
            seq!['\'', '\'']
        } else {
            seq![c]
        }) + doubled(s),
    decreases s.len(),
{
    let t = seq![c] + s;
    if s.len() == 0 {
        assert(t.drop_last() =~= Seq::<char>::empty());
        assert(doubled(t.drop_last()) =~= Seq::<char>::empty());
        assert(t.last() == c);
        assert(doubled(t) =~= (if c == '\'' {
            seq!['\'', '\'']
        } else {
            seq![c]
        }) + doubled(s));
    } else {
        assert(t.drop_last() =~= seq![c] + s.drop_last());
        assert(t.last() == s.last());
        lemma_doubled_front(c, s.drop_last());
        assert(doubled(t) =~= (if c == '\'' {
            seq!['\'', '\'']
        } else {
            seq![c]
        }) + doubled(s));
    }
}

/// A literal says the text that it was made from, whatever that holds, and ends
/// where it was meant to.
pub proof fn law_literal(s: Seq<char>, rest: Seq<char>)
    requires
        rest.len() > 0 ==> rest[0] != '\'',
    ensures
        literal(s)[0] == '\'',
        read_literal(literal(s).drop_first() + rest) == Some((s, rest)),
    decreases s.len(),
{
    reveal_strlit("'");
    let inside = literal(s).drop_first() + rest;
    assert(inside =~= doubled(s) + seq!['\''] + rest);
    if s.len() == 0 {
        assert(inside =~= seq!['\''] + rest);
        assert(inside.drop_first() =~= rest);
        assert(s =~= Seq::<char>::empty());
    } else {
        let t = s.drop_first();
        assert(s =~= seq![s[0]] + t);
        lemma_doubled_front(s[0], t);
        law_literal(t, rest);
        let later = literal(t).drop_first() + rest;
        assert(later =~= doubled(t) + seq!['\''] + rest);
        if s[0] == '\'' {
            assert(inside.skip(2) =~= later);
        } else {
            assert(inside.drop_first() =~= later);
        }
    }
}

/// The condition for the files below a directory: their paths begin with its path
/// and a slash.
pub open spec fn below_sql(path: Seq<char>, filter: Seq<char>) -> Seq<char> {
    let below = "starts_with(path, "@ + literal(path + "/"@) + ")"@;
    if filter.len() == 0 {
        below
    } else {
        below + " AND "@ + filter
    }
}

/// The path behind the first `n` of its characters.
pub open spec fn rest_sql(n: nat) -> Seq<char> {
    "substr(path, "@ + decimal(n) + " + 1"@
}

/// The query for what stands in a directory.
pub open spec fn directory_sql(
    glob: Seq<char>,
    path: Seq<char>,
    filter: Seq<char>,
    order: Seq<char>,
) -> Seq<char> {
    let rest = rest_sql((path + "/"@).len());
    "WITH files AS (\n    SELECT path, size, atime\n    FROM read_parquet('"@ + glob
        + "')\n    WHERE "@ + below_sql(path, filter)
        + "\n),\ncomponents AS (\n    SELECT path, size, atime,\n        CASE\n            WHEN position('/' IN "@
        + rest + ")) > 0\n            THEN "@ + rest + ", position('/' IN "@ + rest
        + ")) - 1)\n            ELSE "@ + rest
        + ")\n        END as component,\n        CASE\n            WHEN position('/' IN "@ + rest
        + ")) > 0 THEN true\n            ELSE false\n        END as is_dir\n    FROM files\n)\nSELECT\n    component,\n    bool_or(is_dir) as is_dir,\n    SUM(size) as total_size,\n    COUNT(*) as file_count,\n    MAX(atime) as latest_atime\nFROM components\nWHERE component != '' AND component IS NOT NULL\nGROUP BY component\nORDER BY "@
        + order
}

fn below_clause(path: &str, filter: &str) -> (r: String)
    ensures
        r@ == below_sql(path@, filter@),
{
    let mut prefix = path.to_owned();
    prefix.append("/");
    let mut s = "starts_with(path, ".to_owned();
    s.append(literal_of(prefix.as_str()).as_str());
    s.append(")");
    if !filter.is_empty() {
        s.append(" AND ");
        s.append(filter);
    }
    s
}

/// The query for what stands in a directory: for an index glob, the directory's
/// path, a filter condition (empty for none), and what to order by. A name is
/// what follows the directory's path, up to the next slash; it is a directory
/// where a slash follows it in some path. The columns are name, whether it is a
/// directory, total size, file count and latest access time.
pub fn directory_query(glob: &str, path: &str, filter: &str, order: &str) -> (r: String)
    ensures
        r@ == directory_sql(glob@, path@, filter@, order@),
{
    let mut prefix = path.to_owned();
    prefix.append("/");
    let n: usize = chars_of(prefix.as_str()).len();
    let digits = decimal_of(n as u64);
    let mut rest = "substr(path, ".to_owned();
    rest.append(digits.as_str());
    rest.append(" + 1");
    let below = below_clause(path, filter);
    let mut s = "WITH files AS (\n    SELECT path, size, atime\n    FROM read_parquet('".to_owned();
    s.append(glob);
    s.append("')\n    WHERE ");
    s.append(below.as_str());
    s.append(
        "\n),\ncomponents AS (\n    SELECT path, size, atime,\n        CASE\n            WHEN position('/' IN ",
    );
    s.append(rest.as_str());
    s.append(")) > 0\n            THEN ");
    s.append(rest.as_str());
    s.append(", position('/' IN ");
    s.append(rest.as_str());
    s.append(")) - 1)\n            ELSE ");
    s.append(rest.as_str());
    s.append(")\n        END as component,\n        CASE\n            WHEN position('/' IN ");
    s.append(rest.as_str());
    s.append(
        ")) > 0 THEN true\n            ELSE false\n        END as is_dir\n    FROM files\n)\nSELECT\n    component,\n    bool_or(is_dir) as is_dir,\n    SUM(size) as total_size,\n    COUNT(*) as file_count,\n    MAX(atime) as latest_atime\nFROM components\nWHERE component != '' AND component IS NOT NULL\nGROUP BY component\nORDER BY ",
    );
    s.append(order);
    s
}

} // verus!
