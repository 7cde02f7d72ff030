//! ARM Cortex-M knowledge: names of the core exceptions, handler names,
//! default handler stubs and MCU families recognised by vector count.
use vstd::prelude::*;

use std::collections::HashMap;

use crate::text::{dec_i64, dec_int, push_str, str_eq, string_of};

verus! {

broadcast use vstd::std_specs::hash::group_hash_axioms;

/// The descriptions of the core exceptions, by IRQ number (exception number - 16).
pub open spec fn core_descriptions() -> Map<i16, &'static str> {
    map![
        -15i16 => "Reset Handler",
        -14i16 => "Non-Maskable Interrupt (NMI)",
        -13i16 => "Hard Fault Handler",
        -12i16 => "Memory Management Fault",
        -11i16 => "Bus Fault Handler",
        -10i16 => "Usage Fault Handler",
        -5i16 => "Supervisor Call (SVCall)",
        -4i16 => "Debug Monitor",
        -2i16 => "Pendable Service Request (PendSV)",
        -1i16 => "System Tick Timer (SysTick)"
    ]
}

/// The description of an IRQ number.
pub open spec fn description_of(irq: i16) -> Seq<char> {
    if core_descriptions().contains_key(irq) {
        core_descriptions()[irq]@
    } else if irq >= 0 {
        "Device IRQ "@ + dec_int(irq as int)
    } else if (-9 <= irq <= -6) || irq == -3 {
        "Reserved"@
    } else {
        "Unknown Exception"@
    }
}

/// The conventional handler name for a core exception.
pub open spec fn handler_hint(irq: i16) -> Option<Seq<char>> {
    if irq == -15 {
        Some("Reset_Handler"@)
    } else if irq == -14 {
        Some("NMI_Handler"@)
    } else if irq == -13 {
        Some("HardFault_Handler"@)
    } else if irq == -12 {
        Some("MemManage_Handler"@)
    } else if irq == -11 {
        Some("BusFault_Handler"@)
    } else if irq == -10 {
        Some("UsageFault_Handler"@)
    } else if irq == -5 {
        Some("SVC_Handler"@)
    } else if irq == -4 {
        Some("DebugMon_Handler"@)
    } else if irq == -2 {
        Some("PendSV_Handler"@)
    } else if irq == -1 {
        Some("SysTick_Handler"@)
    } else {
        None
    }
}

/// The MCU family whose vector table has `count` entries.
pub open spec fn mcu_family_of(count: usize) -> Option<Seq<char>> {
    if count == 82 {
        Some("STM32F0xx"@)
    } else if count == 98 {
        Some("STM32F1xx/F2xx"@)
    } else if count == 114 {
        Some("STM32F4xx"@)
    } else if count == 240 {
        Some("STM32H7xx"@)
    } else if count == 48 {
        Some("nRF52832/nRF52840"@)
    } else if count == 118 {
        Some("Kinetis K series"@)
    } else if count == 155 {
        Some("TM4C123x"@)
    } else {
        None
    }
}

/// Names of the usual weak/stub default handlers.
pub open spec fn is_default_name(name: Seq<char>) -> bool {
    ||| name == "Default_Handler"@
    ||| name == "DefaultHandler"@
    ||| name == "default_handler"@
    ||| name == "Dummy_Handler"@
    ||| name == "DummyHandler"@
    ||| name == "IntDefaultHandler"@
    ||| name == "__default_handler"@
}

/// ARM Cortex-M exception/IRQ database.
pub struct ArmDatabase {
    /// Maps IRQ number to human-readable description
    exception_descriptions: HashMap<i16, &'static str>,
}

impl ArmDatabase {
    /// The table holds exactly the core exception descriptions.
    #[verifier::type_invariant]
    spec fn holds_core_descriptions(self) -> bool {
        self.exception_descriptions@ == core_descriptions()
    }

    /// The descriptions the database holds, by IRQ number.
    pub closed spec fn descriptions(&self) -> Map<i16, &'static str> {
        self.exception_descriptions@
    }

    /// Create a new ARM exception database.
    pub fn new() -> (r: Self)
        ensures
            r.descriptions() == core_descriptions(),
    {
        let mut map: HashMap<i16, &'static str> = HashMap::new();
        Self::initialize_core_exceptions(&mut map);
        ArmDatabase { exception_descriptions: map }
    }

    /// Fill `map` with the standard ARM Cortex-M core exception descriptions.
    /// IRQ numbers are exception numbers minus 16: Reset (exception 1) is IRQ -15;
    /// -9 to -6 and -3 are reserved.
    fn initialize_core_exceptions(map: &mut HashMap<i16, &'static str>)
        requires
            old(map)@ == Map::<i16, &'static str>::empty(),
        ensures
            final(map)@ == core_descriptions(),
    {
        map.insert(-15, "Reset Handler");
        map.insert(-14, "Non-Maskable Interrupt (NMI)");
        map.insert(-13, "Hard Fault Handler");
        map.insert(-12, "Memory Management Fault");
        map.insert(-11, "Bus Fault Handler");
        map.insert(-10, "Usage Fault Handler");
        map.insert(-5, "Supervisor Call (SVCall)");
        map.insert(-4, "Debug Monitor");
        map.insert(-2, "Pendable Service Request (PendSV)");
        map.insert(-1, "System Tick Timer (SysTick)");
        assert(map@ =~= core_descriptions());
    }

    /// Get description for an IRQ number.
    pub fn get_description(&self, irq_number: i16) -> (r: String)
        ensures
            r@ == description_of(irq_number),
    {
        proof {
            use_type_invariant(self);
        }
        match self.exception_descriptions.get(&irq_number) {
            Some(desc) => String::from_str(*desc),
            None => {
                if irq_number >= 0 {
                    let mut v: Vec<char> = Vec::new();
                    push_str(&mut v, "Device IRQ ");
                    let d = dec_i64(irq_number as i64);
                    let mut d2 = d;
                    v.append(&mut d2);
                    string_of(v.as_slice())
                } else if (-9 <= irq_number && irq_number <= -6) || irq_number == -3 {
                    String::from_str("Reserved")
                } else {
                    String::from_str("Unknown Exception")
                }
            },
        }
    }

    /// Check if IRQ is a core ARM exception.
    pub fn is_core_exception(&self, irq_number: i16) -> (r: bool)
        ensures
            r == (irq_number < 0),
    {
        irq_number < 0
    }

    /// Check if IRQ is a critical exception that should be implemented
    /// (Reset, NMI, HardFault, MemManage, BusFault, UsageFault).
    pub fn is_critical_exception(&self, irq_number: i16) -> (r: bool)
        ensures
            r == (-15 <= irq_number <= -10),
    {
        -15 <= irq_number && irq_number <= -10
    }

    /// Get handler name suggestion for an IRQ number.
    pub fn get_handler_name_hint(&self, irq_number: i16) -> (r: Option<&'static str>)
        ensures
            match r {
                Some(s) => handler_hint(irq_number) == Some(s@),
                None => handler_hint(irq_number) is None,
            },
    {
        match irq_number {
            -15 => Some("Reset_Handler"),
            -14 => Some("NMI_Handler"),
            -13 => Some("HardFault_Handler"),
            -12 => Some("MemManage_Handler"),
            -11 => Some("BusFault_Handler"),
            -10 => Some("UsageFault_Handler"),
            -5 => Some("SVC_Handler"),
            -4 => Some("DebugMon_Handler"),
            -2 => Some("PendSV_Handler"),
            -1 => Some("SysTick_Handler"),
            _ => None,
        }
    }

    /// Detect MCU family from vector table size.
    pub fn detect_mcu_family(&self, vector_count: usize) -> (r: Option<String>)
        ensures
            match r {
                Some(s) => mcu_family_of(vector_count) == Some(s@),
                None => mcu_family_of(vector_count) is None,
            },
    {
        match vector_count {
            82 => Some(String::from_str("STM32F0xx")),
            98 => Some(String::from_str("STM32F1xx/F2xx")),
            114 => Some(String::from_str("STM32F4xx")),
            240 => Some(String::from_str("STM32H7xx")),
            48 => Some(String::from_str("nRF52832/nRF52840")),
            118 => Some(String::from_str("Kinetis K series")),
            155 => Some(String::from_str("TM4C123x")),
            _ => None,
        }
    }

    /// Whether `name` is one of the common default handler names that
    /// indicate weak/stub implementations.
    pub fn is_default_handler_name(&self, name: &str) -> (r: bool)
        ensures
            r == is_default_name(name@),
    {
        str_eq(name, "Default_Handler") || str_eq(name, "DefaultHandler") || str_eq(
            name,
            "default_handler",
        ) || str_eq(name, "Dummy_Handler") || str_eq(name, "DummyHandler") || str_eq(
            name,
            "IntDefaultHandler",
        ) || str_eq(name, "__default_handler")
    }
}

impl Default for ArmDatabase {
    fn default() -> (r: Self) {
        Self::new()
    }
}

} // verus!
