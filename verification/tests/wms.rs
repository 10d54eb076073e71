use ogc::wms::GetFeatureInfo;
use ogc::wms::GetMapDisposition;
use ogc::wms::Service;
use ogc::wms::classify_get_map_response;
use ogc::wms::layers_to_csv;
use ogc::wms::styles_to_csv;
use ogc::xlink::LocatorAttrs;
use ogc::xlink::SimpleAttrs;
use ogc::xlink::SimpleModel;

#[test]
fn layers_join_with_commas() {
    assert_eq!(layers_to_csv(&vec!["OSM-WMS".to_string()]), "OSM-WMS");
    assert_eq!(
        layers_to_csv(&vec!["roads".to_string(), "rivers".to_string(), "rails".to_string()]),
        "roads,rivers,rails"
    );
}

#[test]
fn styles_use_only_the_first_entry() {
    assert_eq!(styles_to_csv(&Vec::new()), "");
    assert_eq!(styles_to_csv(&vec!["default".to_string()]), "default");
    assert_eq!(styles_to_csv(&vec!["a".to_string(), "b".to_string()]), "a");
}

#[test]
fn map_response_disposition() {
    assert_eq!(classify_get_map_response(false, None), GetMapDisposition::ErrorStatus);
    assert_eq!(
        classify_get_map_response(false, Some("image/png")),
        GetMapDisposition::ErrorStatus
    );
    assert_eq!(classify_get_map_response(true, None), GetMapDisposition::StreamImage);
    assert_eq!(
        classify_get_map_response(true, Some("image/png")),
        GetMapDisposition::StreamImage
    );
    assert_eq!(
        classify_get_map_response(true, Some("text/xml")),
        GetMapDisposition::ExceptionReport
    );
    assert_eq!(
        classify_get_map_response(true, Some("application/xml; charset=utf-8")),
        GetMapDisposition::ExceptionReport
    );
    assert_eq!(
        classify_get_map_response(true, Some("text/html")),
        GetMapDisposition::UnsupportedContentType
    );
    assert_eq!(
        classify_get_map_response(true, Some("img")),
        GetMapDisposition::UnsupportedContentType
    );
}

#[test]
fn service_defaults_are_empty() {
    let s = Service::default();
    assert_eq!(s.name, "");
    assert_eq!(s.title, "");
    assert_eq!(s.abstr, "");
    assert_eq!(s.max_width, None);
    assert_eq!(s.max_height, None);
    assert_eq!(GetFeatureInfo::default(), GetFeatureInfo {});
}

#[test]
fn xlink_records_hold_their_values() {
    let attrs = SimpleAttrs {
        XlinkType: vec!['s'],
        XlinkHref: vec!['h'],
        XlinkRole: Vec::new(),
        XlinkArcrole: Vec::new(),
        XlinkTitle: Vec::new(),
        XlinkShow: Vec::new(),
        XlinkActuate: Vec::new(),
    };
    assert_eq!(attrs.XlinkType, vec!['s']);
    assert_eq!(attrs.clone(), attrs);

    let locator = LocatorAttrs {
        XlinkType: vec!['l'],
        XlinkHref: Vec::new(),
        XlinkRole: Vec::new(),
        XlinkTitle: Vec::new(),
        XlinkLabel: vec!['x'],
    };
    assert_eq!(locator.XlinkLabel, vec!['x']);
    assert_eq!(SimpleModel {}, SimpleModel {});
}
