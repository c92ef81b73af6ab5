//! The API groups that are in scope.

use vstd::prelude::*;

verus! {

/// The API groups of the platform's operators, fixed when the library is built.
pub const GROUP_FILTER: [&'static str; 16] = [
    "airflow.example.tech",
    "druid.example.tech",
    "hbase.example.tech",
    "hdfs.example.tech",
    "hive.example.tech",
    "kafka.example.tech",
    "nifi.example.tech",
    "spark.example.tech",
    "superset.example.tech",
    "trino.example.tech",
    "zookeeper.example.tech",
    "authentication.example.tech",
    "s3.example.tech",
    "secrets.example.tech",
    "opa.example.tech",
    "listeners.example.tech",
];

/// The names of [`GROUP_FILTER`], in its order.
pub open spec fn allowed_groups() -> Seq<Seq<char>> {
    Seq::new(16, |i: int| GROUP_FILTER[i]@)
}

/// Whether `group` is one of the groups in scope.
pub open spec fn is_allowed(group: Seq<char>) -> bool {
    allowed_groups().contains(group)
}

/// The filter names sixteen groups, and none of them twice.
pub proof fn lemma_filter_is_a_set()
    ensures
        allowed_groups().len() == 16,
        allowed_groups().no_duplicates(),
{
    reveal_strlit("airflow.example.tech");
    reveal_strlit("druid.example.tech");
    reveal_strlit("hbase.example.tech");
    reveal_strlit("hdfs.example.tech");
    reveal_strlit("hive.example.tech");
    reveal_strlit("kafka.example.tech");
    reveal_strlit("nifi.example.tech");
    reveal_strlit("spark.example.tech");
    reveal_strlit("superset.example.tech");
    reveal_strlit("trino.example.tech");
    reveal_strlit("zookeeper.example.tech");
    reveal_strlit("authentication.example.tech");
    reveal_strlit("s3.example.tech");
    reveal_strlit("secrets.example.tech");
    reveal_strlit("opa.example.tech");
    reveal_strlit("listeners.example.tech");
    let names = allowed_groups();
    assert forall|i: int, j: int| 0 <= i < j < 16 implies names[i] != names[j] by {
        assert(names[i].len() != names[j].len() || names[i][0] != names[j][0] || names[i][1]
            != names[j][1]);
    }
}

/// Tells whether `group` is one of the groups in scope.
pub fn is_stackable_group(group: &str) -> (found: bool)
    ensures
        found == is_allowed(group@),
{
    let wanted = group.to_owned();
    let mut i: usize = 0;
    while i < 16
        invariant
            i <= 16,
            wanted@ == group@,
            forall|j: int| 0 <= j < i ==> allowed_groups()[j] != group@,
        decreases 16 - i,
    {
        let entry = GROUP_FILTER[i].to_owned();
        if entry == wanted {
            assert(allowed_groups()[i as int] == group@);
            return true;
        }
        i += 1;
    }
    false
}

} // verus!
