#[test]
fn test_sqlite() -> anyhow::Result<()> {
    Ok(())
}
