//! Scripts injected into WhatsApp Web's top frame.

use vstd::prelude::*;

verus! {

/// The pages the compatibility script is injected into.
pub const WHATSAPP_URL_PATTERN: &'static str = "https://web.whatsapp.com/*";

/// Script that presents Chromium client hints (`navigator.userAgentData`) to WhatsApp Web.
pub const CHROMIUM_COMPATIBILITY_SCRIPT: &'static str = r#"
(() => {
  const brands = [
    { brand: "Chromium", version: "148" },
    { brand: "Google Chrome", version: "148" },
    { brand: "Not=A?Brand", version: "24" },
  ];

  const metadata = {
    brands,
    mobile: false,
    platform: "Linux",
    getHighEntropyValues: async (hints) => {
      const values = {
        architecture: "x86",
        bitness: "64",
        brands,
        fullVersionList: [
          { brand: "Chromium", version: "148.0.7778.96" },
          { brand: "Google Chrome", version: "148.0.7778.96" },
          { brand: "Not=A?Brand", version: "24.0.0.0" },
        ],
        mobile: false,
        model: "",
        platform: "Linux",
        platformVersion: "",
        uaFullVersion: "148.0.7778.96",
        wow64: false,
      };

      return Object.fromEntries(hints.map((hint) => [hint, values[hint]]));
    },
    toJSON: () => ({ brands, mobile: false, platform: "Linux" }),
  };

  if (!navigator.userAgentData) {
    Object.defineProperty(navigator, "userAgentData", {
      configurable: true,
      enumerable: true,
      get: () => metadata,
    });
  }
})();
"#;

/// The script injected at document start so that WhatsApp Web sees a Chromium browser.
pub fn chromium_compatibility_script() -> (r: &'static str)
    ensures
        r@ == CHROMIUM_COMPATIBILITY_SCRIPT@,
{
    CHROMIUM_COMPATIBILITY_SCRIPT
}

} // verus!
