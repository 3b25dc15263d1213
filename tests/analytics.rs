use blog_pipeline::AnalyticsEvent;
use chrono::Utc;

#[test]
fn test_analytics_event_creation() {
    let event = AnalyticsEvent {
        article_id: "test-123".to_string(),
        event_type: "view".to_string(),
        timestamp: Utc::now().to_rfc3339(),
        user_agent: Some("Mozilla/5.0".to_string()),
        referrer: None,
        country: Some("US".to_string()),
        device_type: Some("desktop".to_string()),
    };

    assert_eq!(event.article_id, "test-123");
    assert_eq!(event.event_type, "view");
}
