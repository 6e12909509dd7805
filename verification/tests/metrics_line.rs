use openflow::metrics::Metric;

#[test]
fn test_metric_field() {
    let mut metric = Metric::new("example");

    metric.field("key", 10);
    assert_eq!(metric.fields, vec![("key", 10.to_string())]);
}

#[test]
fn test_metric_tag() {
    let mut metric = Metric::new("example");

    metric.tag("key", "value");
    assert_eq!(metric.tags, vec![("key", "value".to_string())]);
}

#[test]
fn test_metric_to_string() {
    let mut metric = Metric::new("example");

    metric.field("field1", 10);
    metric.field("field2", 20);
    metric.tag("tag1", "value1");
    metric.tag("tag2", "value2");

    assert_eq!(
        metric.to_string(),
        "example,tag1=value1,tag2=value2,field1=10,field2=20".to_string()
    );
}

#[test]
fn metric_without_tags_or_fields() {
    assert_eq!(Metric::new("bare").to_string(), "bare");
    let mut m = Metric::new("m");
    m.field("f", 0);
    assert_eq!(m.to_string(), "m,f=0");
    let mut m = Metric::new("m");
    m.tag("t", "v");
    assert_eq!(m.to_string(), "m,t=v");
}

#[test]
fn metric_field_decimal() {
    let mut m = Metric::new("m");
    m.field("big", u64::MAX);
    m.field("n", 1200);
    assert_eq!(m.fields[0].1, "18446744073709551615");
    assert_eq!(m.fields[1].1, "1200");
}

#[test]
fn metric_with_closure() {
    let m = Metric::with("air_flow", |m| {
        m.tag("room", "office");
        m.field("rate", 42);
    });
    assert_eq!(m.to_string(), "air_flow,room=office,rate=42");
}
