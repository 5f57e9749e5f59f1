use inscription_pipeline::record::DbInscription;
use inscription_pipeline::store::{InscriptionTable, UPSERT_STATEMENT};

fn record(account: &str, authority: &str, write_version: u64) -> DbInscription {
    DbInscription {
        slot: 10 + write_version as i64,
        signature: format!("sig{}", write_version),
        account: account.to_string(),
        mint_account: None,
        metadata_account: "meta".to_string(),
        authority: authority.to_string(),
        write_version,
    }
}

#[test]
fn same_record_twice_is_one_row() {
    let mut t = InscriptionTable::new();
    let r = record("acc", "auth", 1);
    t.upsert(r.clone());
    t.upsert(r.clone());
    assert_eq!(t.row_count(), 1);
    assert_eq!(t.get(&"acc".to_string()), Some(&r));
}

#[test]
fn second_upsert_overwrites_every_column() {
    let mut t = InscriptionTable::new();
    t.upsert(record("acc", "first", 1));
    let mut second = record("acc", "second", 2);
    second.mint_account = Some("mint".to_string());
    t.upsert(second.clone());
    assert_eq!(t.row_count(), 1);
    assert_eq!(t.get(&"acc".to_string()), Some(&second));
}

#[test]
fn out_of_order_versions_regress_the_row() {
    let mut t = InscriptionTable::new();
    let v1 = record("acc", "one", 1);
    let v2 = record("acc", "two", 2);
    t.upsert(v2);
    t.upsert(v1.clone());
    assert_eq!(t.row_count(), 1);
    let row = t.get(&"acc".to_string()).unwrap();
    assert_eq!(row.write_version, 1);
    assert_eq!(row, &v1);
}

#[test]
fn distinct_accounts_get_distinct_rows() {
    let mut t = InscriptionTable::new();
    assert_eq!(t.row_count(), 0);
    assert!(t.get(&"a".to_string()).is_none());
    t.upsert(record("a", "x", 1));
    t.upsert(record("b", "y", 2));
    t.upsert(record("a", "z", 3));
    assert_eq!(t.row_count(), 2);
    assert_eq!(t.get(&"a".to_string()).unwrap().authority, "z");
    assert_eq!(t.get(&"b".to_string()).unwrap().authority, "y");
    assert!(t.get(&"c".to_string()).is_none());
}

#[test]
fn statement_overwrites_on_account_conflict() {
    assert!(UPSERT_STATEMENT.contains("ON CONFLICT (account) DO UPDATE SET"));
    assert!(UPSERT_STATEMENT.contains("write_version=excluded.write_version"));
    assert!(UPSERT_STATEMENT.contains("slot=excluded.slot"));
    assert!(!UPSERT_STATEMENT.contains("WHERE"));
}
