use macsftp_app::logging::DEFAULT_LOG_FILTER;
use tracing::callsite::{Callsite, Identifier};
use tracing::field::FieldSet;
use tracing::metadata::Kind;
use tracing::subscriber::Interest;
use tracing::{Level, Metadata};
use tracing_subscriber::layer::SubscriberExt;

/// A place in the code that could log something.
struct Place;

impl Callsite for Place {
    fn set_interest(&self, _interest: Interest) {}

    fn metadata(&self) -> &Metadata<'_> {
        unreachable!("the place is only named")
    }
}

fn enabled(target: &'static str, level: Level) -> bool {
    let fields = FieldSet::new(&[], Identifier(&Place));
    let metadata = Metadata::new("event", target, level, None, None, None, fields, Kind::EVENT);
    tracing::dispatcher::get_default(|dispatch| dispatch.enabled(&metadata))
}

#[test]
fn default_filter_limits_sftp_logs_to_connection_lifecycle() {
    let subscriber = tracing_subscriber::registry()
        .with(tracing_subscriber::EnvFilter::new(DEFAULT_LOG_FILTER));

    tracing::subscriber::with_default(subscriber, || {
        assert!(enabled("macsftp_sftp::connection", Level::DEBUG));
        assert!(!enabled("macsftp_sftp::runtime", Level::ERROR));
        assert!(!enabled("russh", Level::ERROR));
    });
}
